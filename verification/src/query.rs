use vstd::prelude::*;

use crate::filter::{clone_opt, Filter};
use crate::text::{
    count_char, count_in_parts, decimal, join, join_strs, lemma_count_concat, lemma_count_decimal,
    lemma_count_join, lemma_count_absent, lemma_count_last_only, push_decimal,
};

verus! {

/// A SQL statement together with the text values bound to its `?` placeholders,
/// in placeholder order.
pub struct SqlQuery {
    pub sql: String,
    pub binds: Vec<String>,
}

/// The columns read for a history entry, in the order the entry decoder expects.
pub const ENTRY_COLUMNS_SELECT: &'static str =
    "SELECT id, command, cwd, project_cwd, git_repo, git_branch, exit_code, duration_ms, started_at, deleted, deleted_at FROM entries";

/// Newest entries first.
pub const ENTRY_ORDER: &'static str = " ORDER BY started_at DESC";

/// Opens the conditions.
pub const WHERE_KEYWORD: &'static str = " WHERE ";

/// Joins two conditions.
pub const AND_SEPARATOR: &'static str = " AND ";

/// Opens the row limit.
pub const LIMIT_KEYWORD: &'static str = " LIMIT ";

/// The entry ran in the bound directory.
pub const COND_CWD: &'static str = "cwd = ?";

/// The entry belongs to the bound project root.
pub const COND_PROJECT_CWD: &'static str = "project_cwd = ?";

/// The entry ran in the bound repository.
pub const COND_GIT_REPO: &'static str = "git_repo = ?";

/// The entry ran on the bound branch.
pub const COND_GIT_BRANCH: &'static str = "git_branch = ?";

/// The command succeeded.
pub const COND_SUCCESS: &'static str = "exit_code = 0";

/// The command finished with a non-zero code.
pub const COND_FAILURE: &'static str = "(exit_code IS NOT NULL AND exit_code != 0)";

/// The entry is soft-deleted.
pub const COND_DELETED: &'static str = "deleted = TRUE";

/// The entry is not soft-deleted.
pub const COND_NOT_DELETED: &'static str = "deleted = FALSE";

/// A one-element list when the value is present, the empty list otherwise.
pub open spec fn when_some<T>(o: Option<String>, x: T) -> Seq<T> {
    if o.is_some() {
        seq![x]
    } else {
        Seq::empty()
    }
}

/// A one-element list when the flag is set, the empty list otherwise.
pub open spec fn when_set<T>(b: bool, x: T) -> Seq<T> {
    if b {
        seq![x]
    } else {
        Seq::empty()
    }
}

/// The present value as a list of zero or one bound values.
pub open spec fn bind_of(o: Option<String>) -> Seq<String> {
    match o {
        Some(v) => seq![v],
        None => Seq::empty(),
    }
}

/// The conditions a history filter puts in the WHERE clause, in order.
/// Soft-deleted entries are excluded unless only they are asked for.
pub open spec fn entry_conditions(f: Filter) -> Seq<Seq<char>> {
    when_some(f.cwd, COND_CWD@) + when_some(f.project_cwd, COND_PROJECT_CWD@) + when_some(
        f.git_repo,
        COND_GIT_REPO@,
    ) + when_some(f.git_branch, COND_GIT_BRANCH@) + when_set(f.only_success, COND_SUCCESS@)
        + when_set(f.only_failure, COND_FAILURE@) + seq![
        if f.only_deleted {
            COND_DELETED@
        } else {
            COND_NOT_DELETED@
        },
    ]
}

/// The values bound to the history query's placeholders, in order.
pub open spec fn entry_binds(f: Filter) -> Seq<String> {
    bind_of(f.cwd) + bind_of(f.project_cwd) + bind_of(f.git_repo) + bind_of(f.git_branch)
}

/// " WHERE " followed by the conditions joined with " AND ", or nothing.
pub open spec fn where_clause(conds: Seq<Seq<char>>) -> Seq<char> {
    if conds.len() == 0 {
        Seq::empty()
    } else {
        WHERE_KEYWORD@ + join(conds, AND_SEPARATOR@)
    }
}

/// " LIMIT n" when a limit is given, nothing otherwise.
pub open spec fn limit_clause(limit: Option<usize>) -> Seq<char> {
    match limit {
        Some(n) => LIMIT_KEYWORD@ + decimal(n as nat),
        None => Seq::empty(),
    }
}

/// The SQL text of the structured history query, newest entries first.
pub open spec fn fetch_sql(f: Filter) -> Seq<char> {
    ENTRY_COLUMNS_SELECT@ + where_clause(entry_conditions(f)) + ENTRY_ORDER@ + limit_clause(
        f.limit,
    )
}

/// Appends the WHERE clause made of `conds`.
pub fn push_where_clause(sql: &mut String, conds: &Vec<&str>)
    ensures
        final(sql)@ == old(sql)@ + where_clause(conds@.map_values(|p: &str| p@)),
{
    if conds.len() > 0 {
        sql.append(WHERE_KEYWORD);
        let joined = join_strs(conds, AND_SEPARATOR);
        sql.append(joined.as_str());
    } else {
        assert(conds@.map_values(|p: &str| p@).len() == 0);
        assert(final(sql)@ =~= old(sql)@ + where_clause(conds@.map_values(|p: &str| p@)));
    }
}

/// Appends the LIMIT clause for an optional limit.
pub fn push_limit_clause(sql: &mut String, limit: Option<usize>)
    ensures
        final(sql)@ == old(sql)@ + limit_clause(limit),
{
    match limit {
        Some(n) => {
            sql.append(LIMIT_KEYWORD);
            push_decimal(sql, n as u64);
            assert(final(sql)@ =~= old(sql)@ + limit_clause(limit));
        },
        None => {
            assert(final(sql)@ =~= old(sql)@ + limit_clause(limit));
        },
    }
}

/// The views of a list of static texts.
pub open spec fn views(v: Seq<&str>) -> Seq<Seq<char>> {
    v.map_values(|p: &str| p@)
}

/// Adds a condition with its bound value when the value is present.
pub fn push_optional_condition(
    conds: &mut Vec<&'static str>,
    binds: &mut Vec<String>,
    value: &Option<String>,
    cond: &'static str,
)
    ensures
        views(final(conds)@) == views(old(conds)@) + when_some(*value, cond@),
        final(binds)@ == old(binds)@ + bind_of(*value),
{
    if let Some(v) = value {
        conds.push(cond);
        binds.push(v.clone());
        assert(views(final(conds)@) =~= views(old(conds)@) + when_some(*value, cond@));
        assert(final(binds)@ =~= old(binds)@ + bind_of(*value));
    } else {
        assert(views(final(conds)@) =~= views(old(conds)@) + when_some(*value, cond@));
        assert(final(binds)@ =~= old(binds)@ + bind_of(*value));
    }
}

/// Adds a condition without a bound value when the flag is set.
pub fn push_flag_condition(conds: &mut Vec<&'static str>, flag: bool, cond: &'static str)
    ensures
        views(final(conds)@) == views(old(conds)@) + when_set(flag, cond@),
{
    if flag {
        conds.push(cond);
    }
    assert(views(final(conds)@) =~= views(old(conds)@) + when_set(flag, cond@));
}

/// Builds the structured history query for a filter: the SQL text and the
/// values for its placeholders.
pub fn fetch_query(filter: &Filter) -> (q: SqlQuery)
    ensures
        q.sql@ == fetch_sql(*filter),
        q.binds@ == entry_binds(*filter),
{
    let mut conds: Vec<&'static str> = Vec::new();
    let mut binds: Vec<String> = Vec::new();
    assert(views(conds@) =~= Seq::<Seq<char>>::empty());
    assert(binds@ =~= Seq::<String>::empty());

    push_optional_condition(&mut conds, &mut binds, &filter.cwd, COND_CWD);
    push_optional_condition(&mut conds, &mut binds, &filter.project_cwd, COND_PROJECT_CWD);
    push_optional_condition(&mut conds, &mut binds, &filter.git_repo, COND_GIT_REPO);
    push_optional_condition(&mut conds, &mut binds, &filter.git_branch, COND_GIT_BRANCH);
    push_flag_condition(&mut conds, filter.only_success, COND_SUCCESS);
    push_flag_condition(&mut conds, filter.only_failure, COND_FAILURE);
    push_flag_condition(&mut conds, filter.only_deleted, COND_DELETED);
    push_flag_condition(&mut conds, !filter.only_deleted, COND_NOT_DELETED);
    assert(views(conds@) =~= entry_conditions(*filter));
    assert(binds@ =~= entry_binds(*filter));

    let mut sql = String::from_str(ENTRY_COLUMNS_SELECT);
    push_where_clause(&mut sql, &conds);
    sql.append(ENTRY_ORDER);
    push_limit_clause(&mut sql, filter.limit);
    assert(sql@ =~= fetch_sql(*filter));
    SqlQuery { sql, binds }
}


/// The entry's command matches the bound LIKE pattern.
pub const COND_COMMAND_LIKE: &'static str = "command LIKE ?";

/// The LIKE pattern matching every text that contains `term`.
pub open spec fn like_pattern(term: Seq<char>) -> Seq<char> {
    seq!['%'] + term + seq!['%']
}

/// The SQL text of the substring search: entries whose command is like the
/// bound pattern, newest first, at most `limit` of them.
pub open spec fn search_sql(limit: usize) -> Seq<char> {
    ENTRY_COLUMNS_SELECT@ + WHERE_KEYWORD@ + COND_COMMAND_LIKE@ + ENTRY_ORDER@ + limit_clause(Some(limit))
}

/// Builds the substring search for `term`: SQLite's LIKE (case-insensitive
/// for ASCII) over the command, with the term between `%` wildcards bound
/// to the one placeholder.
pub fn search_query(term: &str, limit: usize) -> (q: SqlQuery)
    ensures
        q.sql@ == search_sql(limit),
        q.binds@.len() == 1,
        q.binds@[0]@ == like_pattern(term@),
{
    let mut sql = String::from_str(ENTRY_COLUMNS_SELECT);
    sql.append(WHERE_KEYWORD);
    sql.append(COND_COMMAND_LIKE);
    sql.append(ENTRY_ORDER);
    push_limit_clause(&mut sql, Some(limit));
    assert(sql@ =~= search_sql(limit));
    let mut pattern = String::new();
    crate::text::push_char(&mut pattern, '%');
    pattern.append(term);
    crate::text::push_char(&mut pattern, '%');
    assert(pattern@ =~= like_pattern(term@));
    let mut binds: Vec<String> = Vec::new();
    binds.push(pattern);
    SqlQuery { sql, binds }
}

/// Counting a character over two lists of parts adds up.
pub proof fn lemma_count_in_parts_concat(a: Seq<Seq<char>>, b: Seq<Seq<char>>, c: char)
    ensures
        count_in_parts(a + b, c) == count_in_parts(a, c) + count_in_parts(b, c),
    decreases b.len(),
{
    if b.len() == 0 {
        assert(a + b =~= a);
    } else {
        lemma_count_in_parts_concat(a, b.drop_last(), c);
        assert((a + b).drop_last() =~= a + b.drop_last());
    }
}

proof fn lemma_count_single(x: Seq<char>, c: char)
    ensures
        count_in_parts(seq![x], c) == count_char(x, c),
{
    assert(seq![x].drop_last() =~= Seq::<Seq<char>>::empty());
    assert(count_in_parts(Seq::<Seq<char>>::empty(), c) == 0);
    assert(seq![x].last() == x);
}

/// A limit clause holds no `?` placeholder.
pub proof fn lemma_limit_clause_has_no_placeholder(limit: Option<usize>)
    ensures
        count_char(limit_clause(limit), '?') == 0,
{
    match limit {
        Some(n) => {
            reveal_strlit(" LIMIT ");
            lemma_count_decimal(n as nat, '?');
            lemma_count_concat(LIMIT_KEYWORD@, decimal(n as nat), '?');
            assert(forall|i: int| 0 <= i < LIMIT_KEYWORD@.len() ==> LIMIT_KEYWORD@[i] != '?');
            lemma_count_absent(LIMIT_KEYWORD@, '?');
        },
        None => {},
    }
}

/// The conditions of a clause hold exactly as many placeholders as values
/// are bound for them.
proof fn lemma_where_clause_placeholders(conds: Seq<Seq<char>>, n: nat)
    requires
        count_in_parts(conds, '?') == n,
    ensures
        count_char(where_clause(conds), '?') == n,
{
    if conds.len() > 0 {
        reveal_strlit(" WHERE ");
        reveal_strlit(" AND ");
        assert(forall|i: int| 0 <= i < WHERE_KEYWORD@.len() ==> WHERE_KEYWORD@[i] != '?');
        assert(forall|i: int| 0 <= i < AND_SEPARATOR@.len() ==> AND_SEPARATOR@[i] != '?');
        lemma_count_absent(WHERE_KEYWORD@, '?');
        lemma_count_absent(AND_SEPARATOR@, '?');
        lemma_count_join(conds, AND_SEPARATOR@, '?');
        lemma_count_concat(WHERE_KEYWORD@, join(conds, AND_SEPARATOR@), '?');
    }
}

proof fn lemma_optional_condition_count(o: Option<String>, cond: Seq<char>)
    requires
        count_char(cond, '?') == 1,
    ensures
        count_in_parts(when_some(o, cond), '?') == bind_of(o).len(),
{
    if o.is_some() {
        lemma_count_single(cond, '?');
    }
}

proof fn lemma_flag_condition_count(b: bool, cond: Seq<char>)
    requires
        count_char(cond, '?') == 0,
    ensures
        count_in_parts(when_set(b, cond), '?') == 0,
{
    if b {
        lemma_count_single(cond, '?');
    }
}

/// The history query has exactly one `?` placeholder for every bound value.
pub proof fn lemma_fetch_placeholders_match_binds(f: Filter)
    ensures
        count_char(fetch_sql(f), '?') == entry_binds(f).len(),
{
    reveal_strlit("cwd = ?");
    reveal_strlit("project_cwd = ?");
    reveal_strlit("git_repo = ?");
    reveal_strlit("git_branch = ?");
    reveal_strlit("exit_code = 0");
    reveal_strlit("(exit_code IS NOT NULL AND exit_code != 0)");
    reveal_strlit("deleted = TRUE");
    reveal_strlit("deleted = FALSE");
    reveal_strlit(" ORDER BY started_at DESC");
    reveal_strlit(
        "SELECT id, command, cwd, project_cwd, git_repo, git_branch, exit_code, duration_ms, started_at, deleted, deleted_at FROM entries",
    );
    assert(forall|i: int| 0 <= i < COND_CWD@.len() - 1 ==> COND_CWD@[i] != '?');
    assert(COND_CWD@.last() == '?');
    lemma_count_last_only(COND_CWD@, '?');
    assert(forall|i: int| 0 <= i < COND_PROJECT_CWD@.len() - 1 ==> COND_PROJECT_CWD@[i] != '?');
    assert(COND_PROJECT_CWD@.last() == '?');
    lemma_count_last_only(COND_PROJECT_CWD@, '?');
    assert(forall|i: int| 0 <= i < COND_GIT_REPO@.len() - 1 ==> COND_GIT_REPO@[i] != '?');
    assert(COND_GIT_REPO@.last() == '?');
    lemma_count_last_only(COND_GIT_REPO@, '?');
    assert(forall|i: int| 0 <= i < COND_GIT_BRANCH@.len() - 1 ==> COND_GIT_BRANCH@[i] != '?');
    assert(COND_GIT_BRANCH@.last() == '?');
    lemma_count_last_only(COND_GIT_BRANCH@, '?');
    assert(forall|i: int| 0 <= i < COND_SUCCESS@.len() ==> COND_SUCCESS@[i] != '?');
    lemma_count_absent(COND_SUCCESS@, '?');
    assert(forall|i: int| 0 <= i < COND_FAILURE@.len() ==> COND_FAILURE@[i] != '?');
    lemma_count_absent(COND_FAILURE@, '?');
    assert(forall|i: int| 0 <= i < COND_DELETED@.len() ==> COND_DELETED@[i] != '?');
    lemma_count_absent(COND_DELETED@, '?');
    assert(forall|i: int| 0 <= i < COND_NOT_DELETED@.len() ==> COND_NOT_DELETED@[i] != '?');
    lemma_count_absent(COND_NOT_DELETED@, '?');
    assert(forall|i: int| 0 <= i < ENTRY_ORDER@.len() ==> ENTRY_ORDER@[i] != '?');
    lemma_count_absent(ENTRY_ORDER@, '?');
    assert(forall|i: int| 0 <= i < ENTRY_COLUMNS_SELECT@.len() ==> ENTRY_COLUMNS_SELECT@[i] != '?');
    lemma_count_absent(ENTRY_COLUMNS_SELECT@, '?');

    let a = when_some(f.cwd, COND_CWD@);
    let b = when_some(f.project_cwd, COND_PROJECT_CWD@);
    let c = when_some(f.git_repo, COND_GIT_REPO@);
    let d = when_some(f.git_branch, COND_GIT_BRANCH@);
    let e = when_set(f.only_success, COND_SUCCESS@);
    let g = when_set(f.only_failure, COND_FAILURE@);
    let last = if f.only_deleted { COND_DELETED@ } else { COND_NOT_DELETED@ };
    lemma_optional_condition_count(f.cwd, COND_CWD@);
    lemma_optional_condition_count(f.project_cwd, COND_PROJECT_CWD@);
    lemma_optional_condition_count(f.git_repo, COND_GIT_REPO@);
    lemma_optional_condition_count(f.git_branch, COND_GIT_BRANCH@);
    lemma_flag_condition_count(f.only_success, COND_SUCCESS@);
    lemma_flag_condition_count(f.only_failure, COND_FAILURE@);
    lemma_count_single(last, '?');
    lemma_count_in_parts_concat(a, b, '?');
    lemma_count_in_parts_concat(a + b, c, '?');
    lemma_count_in_parts_concat(a + b + c, d, '?');
    lemma_count_in_parts_concat(a + b + c + d, e, '?');
    lemma_count_in_parts_concat(a + b + c + d + e, g, '?');
    lemma_count_in_parts_concat(a + b + c + d + e + g, seq![last], '?');
    let conds = entry_conditions(f);
    assert(conds == a + b + c + d + e + g + seq![last]);
    lemma_where_clause_placeholders(conds, entry_binds(f).len());
    lemma_limit_clause_has_no_placeholder(f.limit);
    let w = where_clause(conds);
    lemma_count_concat(ENTRY_COLUMNS_SELECT@, w, '?');
    lemma_count_concat(ENTRY_COLUMNS_SELECT@ + w, ENTRY_ORDER@, '?');
    lemma_count_concat(ENTRY_COLUMNS_SELECT@ + w + ENTRY_ORDER@, limit_clause(f.limit), '?');
}


/// Soft-deleted entries are left out of every history query that does not
/// ask for them alone: its last condition is `deleted = FALSE` (and
/// `deleted = TRUE` when only they are asked for).
pub proof fn lemma_deleted_hidden_by_default(f: Filter)
    ensures
        entry_conditions(f).len() > 0,
        entry_conditions(f).last() == (if f.only_deleted {
            COND_DELETED@
        } else {
            COND_NOT_DELETED@
        }),
{
}

/// A history condition that says nothing about exit codes: on the
/// directory, project, repository, branch or deletion mark.
pub open spec fn exit_neutral_condition(c: Seq<char>) -> bool {
    ||| c == "cwd = ?"@
    ||| c == "project_cwd = ?"@
    ||| c == "git_repo = ?"@
    ||| c == "git_branch = ?"@
    ||| c == "deleted = TRUE"@
    ||| c == "deleted = FALSE"@
}

/// Every condition of a filter is one on exit codes (as asked by its
/// `only_success` and `only_failure`) or one that says nothing about them.
proof fn lemma_conditions_classified(f: Filter)
    ensures
        forall|i: int|
            0 <= i < entry_conditions(f).len() ==> {
                ||| exit_neutral_condition(#[trigger] entry_conditions(f)[i])
                ||| (f.only_success && entry_conditions(f)[i] == "exit_code = 0"@)
                ||| (f.only_failure && entry_conditions(f)[i] == "(exit_code IS NOT NULL AND exit_code != 0)"@)
            },
        f.only_success ==> entry_conditions(f).contains("exit_code = 0"@),
        f.only_failure ==> entry_conditions(f).contains("(exit_code IS NOT NULL AND exit_code != 0)"@),
        entry_conditions(f).len() > 0,
{
    let a = when_some(f.cwd, COND_CWD@) + when_some(f.project_cwd, COND_PROJECT_CWD@) + when_some(
        f.git_repo,
        COND_GIT_REPO@,
    ) + when_some(f.git_branch, COND_GIT_BRANCH@);
    let e = when_set(f.only_success, COND_SUCCESS@);
    let g = when_set(f.only_failure, COND_FAILURE@);
    let d = seq![
        if f.only_deleted {
            COND_DELETED@
        } else {
            COND_NOT_DELETED@
        },
    ];
    let c = entry_conditions(f);
    assert(c =~= a + e + g + d);
    assert forall|i: int| 0 <= i < a.len() implies exit_neutral_condition(#[trigger] a[i]) by {
        let a1 = when_some(f.cwd, COND_CWD@);
        let a2 = when_some(f.project_cwd, COND_PROJECT_CWD@);
        let a3 = when_some(f.git_repo, COND_GIT_REPO@);
        let a4 = when_some(f.git_branch, COND_GIT_BRANCH@);
        assert(a =~= a1 + a2 + a3 + a4);
        if i < a1.len() {
            assert(a[i] == a1[i]);
        } else if i < a1.len() + a2.len() {
            assert(a[i] == a2[i - a1.len()]);
        } else if i < a1.len() + a2.len() + a3.len() {
            assert(a[i] == a3[i - a1.len() - a2.len()]);
        } else {
            assert(a[i] == a4[i - a1.len() - a2.len() - a3.len()]);
        }
    }
    assert forall|i: int| 0 <= i < c.len() implies {
        ||| exit_neutral_condition(#[trigger] c[i])
        ||| (f.only_success && c[i] == "exit_code = 0"@)
        ||| (f.only_failure && c[i] == "(exit_code IS NOT NULL AND exit_code != 0)"@)
    } by {
        if i < a.len() {
            assert(c[i] == a[i]);
        } else if i < a.len() + e.len() {
            assert(c[i] == e[i - a.len()]);
        } else if i < a.len() + e.len() + g.len() {
            assert(c[i] == g[i - a.len() - e.len()]);
        } else {
            assert(c[i] == d[i - a.len() - e.len() - g.len()]);
        }
    }
    if f.only_success {
        assert(c[a.len() as int] == "exit_code = 0"@);
    }
    if f.only_failure {
        assert(c[(a.len() + e.len()) as int] == "(exit_code IS NOT NULL AND exit_code != 0)"@);
    }
}

/// The history query for `rw --ok` keeps only successful commands: its
/// WHERE clause requires `exit_code = 0`, and, unless failures are asked
/// for too, every other condition is one that says nothing about exit codes.
pub proof fn lemma_ok_filter_keeps_only_successes(f: Filter)
    requires
        f.only_success,
    ensures
        exists|conds: Seq<Seq<char>>|
            {
                &&& fetch_sql(f) == ENTRY_COLUMNS_SELECT@ + " WHERE "@ + join(conds, " AND "@) + ENTRY_ORDER@
                    + limit_clause(f.limit)
                &&& conds.contains("exit_code = 0"@)
                &&& !f.only_failure ==> forall|i: int|
                    0 <= i < conds.len() ==> #[trigger] conds[i] == "exit_code = 0"@ || exit_neutral_condition(
                        conds[i],
                    )
            },
{
    lemma_conditions_classified(f);
    let c = entry_conditions(f);
    assert(fetch_sql(f) == ENTRY_COLUMNS_SELECT@ + " WHERE "@ + join(c, " AND "@) + ENTRY_ORDER@ + limit_clause(
        f.limit,
    ));
}

/// The history query for `rw --fail` keeps only failed commands: its WHERE
/// clause requires a non-zero exit code, and, unless successes are asked
/// for too, every other condition is one that says nothing about exit codes.
pub proof fn lemma_fail_filter_keeps_only_failures(f: Filter)
    requires
        f.only_failure,
    ensures
        exists|conds: Seq<Seq<char>>|
            {
                &&& fetch_sql(f) == ENTRY_COLUMNS_SELECT@ + " WHERE "@ + join(conds, " AND "@) + ENTRY_ORDER@
                    + limit_clause(f.limit)
                &&& conds.contains("(exit_code IS NOT NULL AND exit_code != 0)"@)
                &&& !f.only_success ==> forall|i: int|
                    0 <= i < conds.len() ==> #[trigger] conds[i] == "(exit_code IS NOT NULL AND exit_code != 0)"@
                        || exit_neutral_condition(conds[i])
            },
{
    lemma_conditions_classified(f);
    let c = entry_conditions(f);
    assert(fetch_sql(f) == ENTRY_COLUMNS_SELECT@ + " WHERE "@ + join(c, " AND "@) + ENTRY_ORDER@ + limit_clause(
        f.limit,
    ));
}

} // verus!
