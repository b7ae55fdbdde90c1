use vstd::prelude::*;

use std::collections::HashSet;

use crate::entry::Entry;

verus! {

broadcast use vstd::std_specs::hash::group_hash_axioms;

/// One row of the history list: a command that ran once, the head of a group
/// of repeated runs of one command, or one run shown under an expanded group.
#[derive(Debug, Clone, Copy, PartialEq, Eq, Structural)]
pub enum Row {
    Entry(usize),
    Group { entry_index: usize, count: usize, expanded: bool },
    Occurrence(usize),
}

/// The command shown at position `p` of the visible list.
pub open spec fn command_at(entries: Seq<Entry>, visible: Seq<usize>, p: int) -> Seq<char> {
    entries[visible[p] as int].command@
}

/// The entries among the first `n` visible ones whose command is `c`, in order.
pub open spec fn occurrences(entries: Seq<Entry>, visible: Seq<usize>, c: Seq<char>, n: int) -> Seq<
    usize,
>
    decreases n,
{
    if n <= 0 {
        Seq::empty()
    } else {
        occurrences(entries, visible, c, n - 1) + if command_at(entries, visible, n - 1) == c {
            seq![visible[n - 1]]
        } else {
            Seq::empty()
        }
    }
}

/// No earlier visible entry has the same command as position `p`.
pub open spec fn first_of_command(entries: Seq<Entry>, visible: Seq<usize>, p: int) -> bool {
    forall|q: int| 0 <= q < p ==> command_at(entries, visible, q) != command_at(entries, visible, p)
}

/// The rows shown for the command first seen at position `p`: a plain row
/// when it ran once, otherwise a group row headed by its newest run, followed
/// by one row per run when the group is expanded.
pub open spec fn rows_for(entries: Seq<Entry>, visible: Seq<usize>, expanded: Set<usize>, p: int) -> Seq<
    Row,
> {
    let o = occurrences(entries, visible, command_at(entries, visible, p), visible.len() as int);
    if o.len() == 1 {
        seq![Row::Entry(o[0])]
    } else {
        seq![Row::Group { entry_index: o[0], count: o.len() as usize, expanded: expanded.contains(o[0]) }]
            + if expanded.contains(o[0]) {
            o.map_values(|i: usize| Row::Occurrence(i))
        } else {
            Seq::empty()
        }
    }
}

/// The rows for the first `n` visible positions: each command contributes its
/// rows where it is first seen.
pub open spec fn grouped_upto(entries: Seq<Entry>, visible: Seq<usize>, expanded: Set<usize>, n: int) -> Seq<
    Row,
>
    decreases n,
{
    if n <= 0 {
        Seq::empty()
    } else {
        grouped_upto(entries, visible, expanded, n - 1) + if first_of_command(entries, visible, n - 1) {
            rows_for(entries, visible, expanded, n - 1)
        } else {
            Seq::empty()
        }
    }
}

/// The history rows: repeated commands collapse into one group at the
/// position of their first visible run.
pub open spec fn grouped(entries: Seq<Entry>, visible: Seq<usize>, expanded: Set<usize>) -> Seq<Row> {
    grouped_upto(entries, visible, expanded, visible.len() as int)
}

/// Every visible position names a loaded entry.
pub open spec fn visible_in_range(entries: Seq<Entry>, visible: Seq<usize>) -> bool {
    forall|p: int| 0 <= p < visible.len() ==> #[trigger] visible[p] < entries.len()
}

fn collect_occurrences(entries: &[Entry], visible: &[usize], command: &String) -> (o: Vec<usize>)
    requires
        visible_in_range(entries@, visible@),
    ensures
        o@ == occurrences(entries@, visible@, command@, visible@.len() as int),
{
    let mut o: Vec<usize> = Vec::new();
    let mut q: usize = 0;
    while q < visible.len()
        invariant
            q <= visible@.len(),
            visible_in_range(entries@, visible@),
            o@ == occurrences(entries@, visible@, command@, q as int),
        decreases visible@.len() - q,
    {
        let index = visible[q];
        if entries[index].command == *command {
            o.push(index);
        }
        q = q + 1;
        assert(o@ =~= occurrences(entries@, visible@, command@, q as int));
    }
    o
}

fn is_first_of_command(entries: &[Entry], visible: &[usize], p: usize) -> (r: bool)
    requires
        visible_in_range(entries@, visible@),
        p < visible@.len(),
    ensures
        r == first_of_command(entries@, visible@, p as int),
{
    let command = &entries[visible[p]].command;
    let mut q: usize = 0;
    while q < p
        invariant
            q <= p < visible@.len(),
            visible_in_range(entries@, visible@),
            *command == entries@[visible@[p as int] as int].command,
            forall|j: int| 0 <= j < q ==> command_at(entries@, visible@, j) != command_at(entries@, visible@, p as int),
        decreases p - q,
    {
        if entries[visible[q]].command == *command {
            assert(command_at(entries@, visible@, q as int) == command_at(entries@, visible@, p as int));
            return false;
        }
        q = q + 1;
    }
    true
}

proof fn lemma_occurrences_nonempty(entries: Seq<Entry>, visible: Seq<usize>, p: int, n: int)
    requires
        0 <= p < n <= visible.len(),
        first_of_command(entries, visible, p),
    ensures
        occurrences(entries, visible, command_at(entries, visible, p), n).len() >= 1,
        occurrences(entries, visible, command_at(entries, visible, p), n)[0] == visible[p],
    decreases n,
{
    let c = command_at(entries, visible, p);
    if n - 1 == p {
        assert(occurrences(entries, visible, c, p) =~= Seq::<usize>::empty()) by {
            lemma_occurrences_before_first(entries, visible, p, p);
        }
    } else {
        lemma_occurrences_nonempty(entries, visible, p, n - 1);
    }
}

proof fn lemma_occurrences_before_first(entries: Seq<Entry>, visible: Seq<usize>, p: int, n: int)
    requires
        0 <= n <= p < visible.len(),
        first_of_command(entries, visible, p),
    ensures
        occurrences(entries, visible, command_at(entries, visible, p), n).len() == 0,
    decreases n,
{
    if n > 0 {
        lemma_occurrences_before_first(entries, visible, p, n - 1);
    }
}

proof fn lemma_occurrences_bounded(entries: Seq<Entry>, visible: Seq<usize>, c: Seq<char>, n: int)
    requires
        0 <= n <= visible.len(),
    ensures
        occurrences(entries, visible, c, n).len() <= n,
    decreases n,
{
    if n > 0 {
        lemma_occurrences_bounded(entries, visible, c, n - 1);
    }
}

/// Two first runs of commands that are the same entry are the same position.
proof fn lemma_first_runs_distinct(entries: Seq<Entry>, visible: Seq<usize>, p1: int, p2: int)
    requires
        0 <= p1 < visible.len(),
        0 <= p2 < visible.len(),
        first_of_command(entries, visible, p1),
        first_of_command(entries, visible, p2),
        visible[p1] == visible[p2],
    ensures
        p1 == p2,
{
    assert(command_at(entries, visible, p1) == command_at(entries, visible, p2));
}

/// Rows built for a set that also holds `g` are the rows built without it,
/// as long as no command among the first `n` positions is headed by `g`.
proof fn lemma_grouped_insert_elsewhere(
    entries: Seq<Entry>,
    visible: Seq<usize>,
    expanded: Set<usize>,
    g: usize,
    n: int,
)
    requires
        0 <= n <= visible.len(),
        forall|p: int| 0 <= p < n && first_of_command(entries, visible, p) ==> visible[p] != g,
    ensures
        grouped_upto(entries, visible, expanded.insert(g), n) == grouped_upto(entries, visible, expanded, n),
    decreases n,
{
    if n > 0 {
        lemma_grouped_insert_elsewhere(entries, visible, expanded, g, n - 1);
        if first_of_command(entries, visible, n - 1) {
            lemma_occurrences_nonempty(entries, visible, n - 1, visible.len() as int);
            let o = occurrences(entries, visible, command_at(entries, visible, n - 1), visible.len() as int);
            assert(o[0] != g);
            assert(expanded.insert(g).contains(o[0]) == expanded.contains(o[0]));
            assert(rows_for(entries, visible, expanded.insert(g), n - 1) == rows_for(entries, visible, expanded, n - 1));
        }
    }
}

/// The rows for the first `n` positions start the rows for the first `m`.
proof fn lemma_grouped_prefix(entries: Seq<Entry>, visible: Seq<usize>, expanded: Set<usize>, n: int, m: int)
    requires
        0 <= n <= m,
    ensures
        grouped_upto(entries, visible, expanded, n).len() <= grouped_upto(entries, visible, expanded, m).len(),
        grouped_upto(entries, visible, expanded, m).subrange(0, grouped_upto(entries, visible, expanded, n).len() as int)
            == grouped_upto(entries, visible, expanded, n),
    decreases m - n,
{
    if n < m {
        lemma_grouped_prefix(entries, visible, expanded, n, m - 1);
        let a = grouped_upto(entries, visible, expanded, n);
        let b = grouped_upto(entries, visible, expanded, m - 1);
        let c = grouped_upto(entries, visible, expanded, m);
        assert(c.subrange(0, b.len() as int) =~= b);
        assert(c.subrange(0, a.len() as int) =~= b.subrange(0, a.len() as int));
    } else {
        let a = grouped_upto(entries, visible, expanded, n);
        assert(a.subrange(0, a.len() as int) =~= a);
    }
}

/// A group row among the rows for the first `n` positions heads the rows of
/// the first run of its command: the position returned.
proof fn lemma_group_row_origin(entries: Seq<Entry>, visible: Seq<usize>, expanded: Set<usize>, n: int, r: int) -> (p: int)
    requires
        0 <= n <= visible.len(),
        0 <= r < grouped_upto(entries, visible, expanded, n).len(),
        grouped_upto(entries, visible, expanded, n)[r] is Group,
    ensures
        0 <= p < n,
        first_of_command(entries, visible, p),
        visible[p] == row_head(grouped_upto(entries, visible, expanded, n)[r]),
        r == grouped_upto(entries, visible, expanded, p).len(),
    decreases n,
{
    let prev = grouped_upto(entries, visible, expanded, n - 1);
    let rows = grouped_upto(entries, visible, expanded, n);
    if r < prev.len() {
        assert(rows[r] == prev[r]);
        lemma_group_row_origin(entries, visible, expanded, n - 1, r)
    } else {
        let p = n - 1;
        assert(first_of_command(entries, visible, p));
        lemma_occurrences_nonempty(entries, visible, p, visible.len() as int);
        let o = occurrences(entries, visible, command_at(entries, visible, p), visible.len() as int);
        let seg = rows_for(entries, visible, expanded, p);
        assert(rows == prev + seg);
        assert(rows[r] == seg[r - prev.len()]);
        if r - prev.len() > 0 {
            assert(o.len() != 1);
            assert(expanded.contains(o[0]));
            let occ = o.map_values(|i: usize| Row::Occurrence(i));
            assert(seg[r - prev.len()] == occ[r - prev.len() - 1]);
        }
        assert(r == prev.len());
        p
    }
}

/// The entry a row stands for.
pub open spec fn row_head(r: Row) -> usize {
    match r {
        Row::Entry(i) => i,
        Row::Group { entry_index, .. } => entry_index,
        Row::Occurrence(i) => i,
    }
}

/// In the history rows, a command's group row is the only group row headed
/// by its entry.
pub proof fn lemma_group_rows_unique(entries: Seq<Entry>, visible: Seq<usize>, expanded: Set<usize>, r1: int, r2: int)
    requires
        0 <= r1 < grouped(entries, visible, expanded).len(),
        0 <= r2 < grouped(entries, visible, expanded).len(),
        grouped(entries, visible, expanded)[r1] is Group,
        grouped(entries, visible, expanded)[r2] is Group,
        row_head(grouped(entries, visible, expanded)[r1]) == row_head(grouped(entries, visible, expanded)[r2]),
    ensures
        r1 == r2,
{
    let n = visible.len() as int;
    let p1 = lemma_group_row_origin(entries, visible, expanded, n, r1);
    let p2 = lemma_group_row_origin(entries, visible, expanded, n, r2);
    lemma_first_runs_distinct(entries, visible, p1, p2);
}

/// Adding the head of a collapsed group to the expanded set keeps that
/// group's row where it was (now expanded).
pub proof fn lemma_expand_keeps_group_row(entries: Seq<Entry>, visible: Seq<usize>, expanded: Set<usize>, r: int)
    requires
        0 <= r < grouped(entries, visible, expanded).len(),
        grouped(entries, visible, expanded)[r] is Group,
    ensures
        ({
            let g = row_head(grouped(entries, visible, expanded)[r]);
            let b = grouped(entries, visible, expanded.insert(g));
            &&& r < b.len()
            &&& b[r] is Group
            &&& row_head(b[r]) == g
        }),
{
    let n = visible.len() as int;
    let rows = grouped(entries, visible, expanded);
    let g = row_head(rows[r]);
    let s2 = expanded.insert(g);
    let p = lemma_group_row_origin(entries, visible, expanded, n, r);
    assert forall|q: int| 0 <= q < p && first_of_command(entries, visible, q) implies visible[q] != g by {
        if visible[q] == g {
            lemma_first_runs_distinct(entries, visible, q, p);
        }
    }
    lemma_grouped_insert_elsewhere(entries, visible, expanded, g, p);
    let before = grouped_upto(entries, visible, s2, p);
    assert(before.len() == r);
    lemma_occurrences_nonempty(entries, visible, p, visible.len() as int);
    let o = occurrences(entries, visible, command_at(entries, visible, p), visible.len() as int);
    let seg1 = rows_for(entries, visible, expanded, p);
    let seg2 = rows_for(entries, visible, s2, p);
    assert(grouped_upto(entries, visible, expanded, p + 1) == grouped_upto(entries, visible, expanded, p) + seg1);
    lemma_grouped_prefix(entries, visible, expanded, p + 1, n);
    let full1 = grouped_upto(entries, visible, expanded, p + 1);
    assert(rows[r] == full1[r]);
    assert(full1[r] == seg1[0]);
    assert(o.len() != 1);
    let full2 = grouped_upto(entries, visible, s2, p + 1);
    assert(full2 == before + seg2);
    assert(full2[r] == seg2[0]);
    lemma_grouped_prefix(entries, visible, s2, p + 1, n);
    let b = grouped(entries, visible, s2);
    assert(b[r] == full2[r]);
}

/// Builds the history rows from the visible entries, collapsing repeated
/// commands into groups headed by their first visible run; a group is
/// expanded when its head is in `expanded_groups`.
pub fn grouped_rows(entries: &[Entry], visible_entries: &[usize], expanded_groups: &HashSet<usize>) -> (rows: Vec<Row>)
    requires
        visible_in_range(entries@, visible_entries@),
    ensures
        rows@ == grouped(entries@, visible_entries@, expanded_groups@),
{
    let ghost es = entries@;
    let ghost vs = visible_entries@;
    let ghost ex = expanded_groups@;
    let mut rows: Vec<Row> = Vec::new();
    let mut p: usize = 0;
    while p < visible_entries.len()
        invariant
            es == entries@,
            vs == visible_entries@,
            ex == expanded_groups@,
            p <= vs.len(),
            visible_in_range(es, vs),
            rows@ == grouped_upto(es, vs, ex, p as int),
        decreases vs.len() - p,
    {
        if is_first_of_command(entries, visible_entries, p) {
            let command = &entries[visible_entries[p]].command;
            let occ = collect_occurrences(entries, visible_entries, command);
            proof {
                lemma_occurrences_nonempty(es, vs, p as int, vs.len() as int);
                lemma_occurrences_bounded(es, vs, command@, vs.len() as int);
            }
            let ghost before = rows@;
            if occ.len() == 1 {
                rows.push(Row::Entry(occ[0]));
            } else {
                let head = occ[0];
                let expanded = expanded_groups.contains(&head);
                rows.push(Row::Group { entry_index: head, count: occ.len(), expanded });
                if expanded {
                    let mut k: usize = 0;
                    while k < occ.len()
                        invariant
                            k <= occ@.len(),
                            rows@ == before + seq![Row::Group { entry_index: head, count: occ@.len() as usize, expanded: true }]
                                + occ@.subrange(0, k as int).map_values(|i: usize| Row::Occurrence(i)),
                        decreases occ@.len() - k,
                    {
                        rows.push(Row::Occurrence(occ[k]));
                        k = k + 1;
                        assert(rows@ =~= before + seq![Row::Group { entry_index: head, count: occ@.len() as usize, expanded: true }]
                            + occ@.subrange(0, k as int).map_values(|i: usize| Row::Occurrence(i)));
                    }
                    assert(occ@.subrange(0, occ@.len() as int) =~= occ@);
                }
            }
            assert(rows@ =~= grouped_upto(es, vs, ex, p + 1));
        } else {
            assert(rows@ =~= grouped_upto(es, vs, ex, p + 1));
        }
        p = p + 1;
    }
    rows
}

} // verus!
