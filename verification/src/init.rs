use vstd::prelude::*;

use crate::text::{
    all_ws, lemma_lines_concat, lemma_lines_single, lemma_trailing_ws_bound,
    lemma_trailing_ws_concat, lemma_trim_after_trim_end, lemma_trim_end_newline,
    lemma_trim_end_trimmed, lemma_lines_no_lf, lemma_lines_single_line, lemma_trim_strip_cr, lines_of,
    no_lf_lines, push_char, simple_line, split_lines, string_views, strip_cr, trailing_ws, trim, trim_end,
    trim_end_spec, trim_spec, whitespace,
};

verus! {

/// The line that opens the block of shell startup text rewind manages.
pub const START_MARKER: &'static str = "# >>> rewind init >>>";

/// The line that closes the managed block.
pub const END_MARKER: &'static str = "# <<< rewind init <<<";

/// The comment line under the start marker.
pub const MANAGED_COMMENT: &'static str =
    "# Managed by `rw init --install`; remove with `rw init --uninstall`.";

/// The lines that stay outside managed blocks. A start marker line opens a
/// block (and is dropped), an end marker line closes an open block (and is
/// dropped), and lines inside a block are dropped; markers are recognised
/// after trimming.
pub open spec fn kept_lines(lines: Seq<Seq<char>>, inside: bool) -> Seq<Seq<char>>
    decreases lines.len(),
{
    if lines.len() == 0 {
        Seq::empty()
    } else {
        let t = trim_spec(lines[0]);
        let rest = lines.drop_first();
        if t == START_MARKER@ {
            kept_lines(rest, true)
        } else if t == END_MARKER@ && inside {
            kept_lines(rest, false)
        } else if !inside {
            seq![lines[0]] + kept_lines(rest, false)
        } else {
            kept_lines(rest, true)
        }
    }
}

/// Each line followed by a line feed.
pub open spec fn with_newlines(lines: Seq<Seq<char>>) -> Seq<char>
    decreases lines.len(),
{
    if lines.len() == 0 {
        Seq::empty()
    } else {
        with_newlines(lines.drop_last()) + lines.last() + seq!['\n']
    }
}

/// The text with every managed block removed, trailing whitespace trimmed
/// and one final line feed.
pub open spec fn without_managed_block(input: Seq<char>) -> Seq<char> {
    trim_end_spec(with_newlines(kept_lines(lines_of(input), false))) + seq!['\n']
}

/// Whether a block is opened and then closed, starting in the given state.
pub open spec fn closes_block(lines: Seq<Seq<char>>, inside: bool) -> bool
    decreases lines.len(),
{
    if lines.len() == 0 {
        false
    } else {
        let t = trim_spec(lines[0]);
        if t == START_MARKER@ {
            closes_block(lines.drop_first(), true)
        } else if t == END_MARKER@ && inside {
            true
        } else {
            closes_block(lines.drop_first(), inside)
        }
    }
}

/// The managed block holding a shell snippet.
pub open spec fn managed_block_text(snippet: Seq<char>) -> Seq<char> {
    START_MARKER@ + seq!['\n'] + MANAGED_COMMENT@ + seq!['\n'] + trim_spec(snippet) + seq!['\n']
        + END_MARKER@ + seq!['\n']
}

/// The existing text (without trailing whitespace) followed by an empty line
/// and the block, or just the block when nothing remains.
pub open spec fn appended_block(existing: Seq<char>, block: Seq<char>) -> Seq<char> {
    let e = trim_end_spec(existing);
    if e.len() == 0 {
        block
    } else {
        e + seq!['\n', '\n'] + block
    }
}

/// The managed block for a shell snippet, between the start and end markers.
pub fn managed_block(snippet: &str) -> (r: String)
    ensures
        r@ == managed_block_text(snippet@),
{
    let mut r = String::from_str(START_MARKER);
    push_char(&mut r, '\n');
    r.append(MANAGED_COMMENT);
    push_char(&mut r, '\n');
    let body = trim(snippet);
    r.append(body.as_str());
    push_char(&mut r, '\n');
    r.append(END_MARKER);
    push_char(&mut r, '\n');
    assert(r@ =~= managed_block_text(snippet@));
    r
}

/// Appends a block after existing text, separated by an empty line.
pub fn append_block(existing: &str, block: &str) -> (r: String)
    ensures
        r@ == appended_block(existing@, block@),
{
    let e = trim_end(existing);
    if e.unicode_len() == 0 {
        return block.to_owned();
    }
    let mut r = e;
    push_char(&mut r, '\n');
    push_char(&mut r, '\n');
    r.append(block);
    assert(r@ =~= appended_block(existing@, block@));
    r
}

proof fn lemma_with_newlines_concat(a: Seq<Seq<char>>, b: Seq<Seq<char>>)
    ensures
        with_newlines(a + b) == with_newlines(a) + with_newlines(b),
    decreases b.len(),
{
    if b.len() == 0 {
        assert(a + b =~= a);
        assert(with_newlines(b) == Seq::<char>::empty());
        assert(with_newlines(a) + with_newlines(b) =~= with_newlines(a));
    } else {
        lemma_with_newlines_concat(a, b.drop_last());
        assert((a + b).drop_last() =~= a + b.drop_last());
        assert((a + b).last() == b.last());
        assert(with_newlines(a + b) == with_newlines(a + b.drop_last()) + b.last() + seq!['\n']);
        assert(with_newlines(b) == with_newlines(b.drop_last()) + b.last() + seq!['\n']);
        assert(with_newlines(a + b) =~= with_newlines(a) + with_newlines(b));
    }
}

proof fn lemma_with_newlines_single(l: Seq<char>)
    ensures
        with_newlines(seq![l]) == l + seq!['\n'],
{
    assert(seq![l].drop_last() =~= Seq::<Seq<char>>::empty());
    assert(seq![l].last() == l);
    assert(with_newlines(Seq::<Seq<char>>::empty()) == Seq::<char>::empty());
    assert(with_newlines(seq![l]) == with_newlines(Seq::<Seq<char>>::empty()) + l + seq!['\n']);
    assert(Seq::<char>::empty() + l =~= l);
}

/// Removes every managed block from shell startup text.
pub fn remove_managed_block(input: &str) -> (r: String)
    ensures
        r@ == without_managed_block(input@),
{
    let lines = split_lines(input);
    let start = String::from_str(START_MARKER);
    let end = String::from_str(END_MARKER);
    let ghost ls = string_views(lines@);
    let mut output = String::new();
    let mut inside = false;
    let mut i: usize = 0;
    assert(ls.subrange(0, ls.len() as int) =~= ls);
    while i < lines.len()
        invariant
            ls == string_views(lines@),
            ls == lines_of(input@),
            start@ == START_MARKER@,
            end@ == END_MARKER@,
            i <= ls.len(),
            with_newlines(kept_lines(ls, false)) == output@ + with_newlines(
                kept_lines(ls.subrange(i as int, ls.len() as int), inside),
            ),
        decreases ls.len() - i,
    {
        let ghost rest = ls.subrange(i as int, ls.len() as int);
        assert(rest[0] == lines@[i as int]@);
        assert(rest.drop_first() =~= ls.subrange(i + 1, ls.len() as int));
        let line = &lines[i];
        let t = trim(line.as_str());
        if t == start {
            inside = true;
        } else if t == end && inside {
            inside = false;
        } else if !inside {
            proof {
                lemma_with_newlines_concat(seq![line@], kept_lines(ls.subrange(i + 1, ls.len() as int), false));
                lemma_with_newlines_single(line@);
            }
            output.append(line.as_str());
            push_char(&mut output, '\n');
        }
        i = i + 1;
    }
    assert(ls.subrange(ls.len() as int, ls.len() as int) =~= Seq::<Seq<char>>::empty());
    let mut r = trim_end(output.as_str());
    push_char(&mut r, '\n');
    r
}

/// Whether the text holds a complete managed block.
pub fn has_managed_block(contents: &str) -> (r: bool)
    ensures
        r == closes_block(lines_of(contents@), false),
{
    let lines = split_lines(contents);
    let start = String::from_str(START_MARKER);
    let end = String::from_str(END_MARKER);
    let ghost ls = string_views(lines@);
    let mut inside = false;
    let mut i: usize = 0;
    assert(ls.subrange(0, ls.len() as int) =~= ls);
    while i < lines.len()
        invariant
            ls == string_views(lines@),
            ls == lines_of(contents@),
            start@ == START_MARKER@,
            end@ == END_MARKER@,
            i <= ls.len(),
            closes_block(ls, false) == closes_block(ls.subrange(i as int, ls.len() as int), inside),
        decreases ls.len() - i,
    {
        let ghost rest = ls.subrange(i as int, ls.len() as int);
        assert(rest[0] == lines@[i as int]@);
        assert(rest.drop_first() =~= ls.subrange(i + 1, ls.len() as int));
        let t = trim(lines[i].as_str());
        if t == start {
            inside = true;
        } else if t == end && inside {
            return true;
        }
        i = i + 1;
    }
    false
}

/// Whether a block is open after reading the lines from the given state
/// (see `kept_lines`).
pub open spec fn block_open_after(lines: Seq<Seq<char>>, inside: bool) -> bool
    decreases lines.len(),
{
    if lines.len() == 0 {
        inside
    } else {
        let t = trim_spec(lines[0]);
        let rest = lines.drop_first();
        if t == START_MARKER@ {
            block_open_after(rest, true)
        } else if t == END_MARKER@ && inside {
            block_open_after(rest, false)
        } else {
            block_open_after(rest, inside)
        }
    }
}

/// No line is a start marker.
pub open spec fn no_start_line(lines: Seq<Seq<char>>) -> bool {
    forall|i: int| 0 <= i < lines.len() ==> trim_spec(#[trigger] lines[i]) != START_MARKER@
}

/// No line is an end marker.
pub open spec fn no_end_line(lines: Seq<Seq<char>>) -> bool {
    forall|i: int| 0 <= i < lines.len() ==> trim_spec(#[trigger] lines[i]) != END_MARKER@
}

/// No line holds a line feed or ends with a carriage return.
pub open spec fn simple_lines(lines: Seq<Seq<char>>) -> bool {
    forall|i: int| 0 <= i < lines.len() ==> simple_line(#[trigger] lines[i])
}

proof fn lemma_kept_concat(p: Seq<Seq<char>>, q: Seq<Seq<char>>, inside: bool)
    ensures
        kept_lines(p + q, inside) == kept_lines(p, inside) + kept_lines(q, block_open_after(p, inside)),
    decreases p.len(),
{
    if p.len() == 0 {
        assert(p + q =~= q);
        assert(kept_lines(p, inside) =~= Seq::<Seq<char>>::empty());
        assert(kept_lines(p, inside) + kept_lines(q, inside) =~= kept_lines(q, inside));
    } else {
        assert((p + q)[0] == p[0]);
        assert((p + q).drop_first() =~= p.drop_first() + q);
        let t = trim_spec(p[0]);
        let rest = p.drop_first();
        if t == START_MARKER@ {
            lemma_kept_concat(rest, q, true);
        } else if t == END_MARKER@ && inside {
            lemma_kept_concat(rest, q, false);
        } else if !inside {
            lemma_kept_concat(rest, q, false);
            assert(seq![p[0]] + (kept_lines(rest, false) + kept_lines(q, block_open_after(rest, false)))
                =~= (seq![p[0]] + kept_lines(rest, false)) + kept_lines(q, block_open_after(rest, false)));
        } else {
            lemma_kept_concat(rest, q, true);
        }
    }
}

proof fn lemma_kept_plain(p: Seq<Seq<char>>)
    requires
        no_start_line(p),
    ensures
        kept_lines(p, false) == p,
        !block_open_after(p, false),
    decreases p.len(),
{
    if p.len() == 0 {
        assert(kept_lines(p, false) =~= p);
    } else {
        assert(trim_spec(p[0]) != START_MARKER@);
        let rest = p.drop_first();
        assert forall|i: int| 0 <= i < rest.len() implies trim_spec(#[trigger] rest[i]) != START_MARKER@ by {
            assert(rest[i] == p[i + 1]);
        }
        lemma_kept_plain(rest);
        assert(seq![p[0]] + rest =~= p);
    }
}

proof fn lemma_kept_inside(q: Seq<Seq<char>>)
    requires
        no_end_line(q),
    ensures
        kept_lines(q, true) == Seq::<Seq<char>>::empty(),
        block_open_after(q, true),
    decreases q.len(),
{
    if q.len() == 0 {
        assert(kept_lines(q, true) =~= Seq::<Seq<char>>::empty());
    } else {
        assert(trim_spec(q[0]) != END_MARKER@);
        let rest = q.drop_first();
        assert forall|i: int| 0 <= i < rest.len() implies trim_spec(#[trigger] rest[i]) != END_MARKER@ by {
            assert(rest[i] == q[i + 1]);
        }
        lemma_kept_inside(rest);
    }
}

proof fn lemma_kept_props(p: Seq<Seq<char>>, inside: bool)
    ensures
        no_start_line(kept_lines(p, inside)),
        simple_lines(p) ==> simple_lines(kept_lines(p, inside)),
        no_lf_lines(p) ==> no_lf_lines(kept_lines(p, inside)),
    decreases p.len(),
{
    if p.len() > 0 {
        let t = trim_spec(p[0]);
        let rest = p.drop_first();
        if simple_lines(p) {
            assert forall|i: int| 0 <= i < rest.len() implies simple_line(#[trigger] rest[i]) by {
                assert(rest[i] == p[i + 1]);
            }
        }
        if no_lf_lines(p) {
            assert forall|i: int| 0 <= i < rest.len() implies !(#[trigger] rest[i]).contains('\n') by {
                assert(rest[i] == p[i + 1]);
            }
        }
        if t == START_MARKER@ {
            lemma_kept_props(rest, true);
        } else if t == END_MARKER@ && inside {
            lemma_kept_props(rest, false);
        } else if !inside {
            lemma_kept_props(rest, false);
            let k = kept_lines(p, inside);
            let kr = kept_lines(rest, false);
            assert(k == seq![p[0]] + kr);
            assert forall|i: int| 0 <= i < k.len() implies trim_spec(#[trigger] k[i]) != START_MARKER@ by {
                if i > 0 {
                    assert(k[i] == kr[i - 1]);
                }
            }
            if simple_lines(p) {
                assert forall|i: int| 0 <= i < k.len() implies simple_line(#[trigger] k[i]) by {
                    if i > 0 {
                        assert(k[i] == kr[i - 1]);
                    }
                }
            }
            if no_lf_lines(p) {
                assert forall|i: int| 0 <= i < k.len() implies !(#[trigger] k[i]).contains('\n') by {
                    if i > 0 {
                        assert(k[i] == kr[i - 1]);
                    }
                }
            }
        } else {
            lemma_kept_props(rest, true);
        }
    } else {
        assert(kept_lines(p, inside) =~= Seq::<Seq<char>>::empty());
    }
}

/// The lines left once trailing whitespace is trimmed off their joined
/// text: trailing blank lines dropped and the last one trimmed at its end.
pub open spec fn trimmed_lines(k: Seq<Seq<char>>) -> Seq<Seq<char>>
    decreases k.len(),
{
    if k.len() == 0 {
        k
    } else if all_ws(k.last()) {
        trimmed_lines(k.drop_last())
    } else {
        k.drop_last().push(trim_end_spec(k.last()))
    }
}

proof fn lemma_newline_ws()
    ensures
        trailing_ws(seq!['\n']) == 1,
        whitespace('\n'),
        whitespace('\r'),
{
    assert(('\n' as u32) == 10);
    assert(('\r' as u32) == 13);
    assert(seq!['\n'].drop_last() =~= Seq::<char>::empty());
    assert(trailing_ws(Seq::<char>::empty()) == 0);
    assert(seq!['\n'].last() == '\n');
}

proof fn lemma_trailing_ws_stop(s: Seq<char>)
    requires
        trailing_ws(s) < s.len(),
    ensures
        !whitespace(s[s.len() - trailing_ws(s) - 1]),
    decreases s.len(),
{
    if whitespace(s.last()) {
        lemma_trailing_ws_stop(s.drop_last());
    }
}

proof fn lemma_trim_end_with_newlines(k: Seq<Seq<char>>)
    ensures
        trimmed_lines(k).len() == 0 ==> trim_end_spec(with_newlines(k)).len() == 0,
        trimmed_lines(k).len() > 0 ==> trim_end_spec(with_newlines(k)).len() > 0
            && trim_end_spec(with_newlines(k)) + seq!['\n'] == with_newlines(trimmed_lines(k)),
    decreases k.len(),
{
    lemma_newline_ws();
    if k.len() == 0 {
        assert(trailing_ws(with_newlines(k)) == 0);
    } else {
        let p = k.drop_last();
        let l = k.last();
        let wp = with_newlines(p);
        let ln = l + seq!['\n'];
        assert(with_newlines(k) =~= wp + ln);
        lemma_trailing_ws_concat(wp, ln);
        lemma_trailing_ws_concat(l, seq!['\n']);
        lemma_trailing_ws_bound(l);
        lemma_trailing_ws_bound(wp);
        if all_ws(l) {
            lemma_trim_end_with_newlines(p);
            assert(trim_end_spec(with_newlines(k)) =~= trim_end_spec(wp));
        } else {
            assert(trim_end_spec(with_newlines(k)) =~= wp + trim_end_spec(l));
            let k2 = p.push(trim_end_spec(l));
            assert(k2.drop_last() =~= p);
            assert(with_newlines(k2) =~= wp + trim_end_spec(l) + seq!['\n']);
        }
    }
}

proof fn lemma_trimmed_lines_props(k: Seq<Seq<char>>)
    ensures
        no_start_line(k) ==> no_start_line(trimmed_lines(k)),
        simple_lines(k) ==> simple_lines(trimmed_lines(k)),
        no_lf_lines(k) ==> no_lf_lines(trimmed_lines(k)),
    decreases k.len(),
{
    lemma_newline_ws();
    if k.len() > 0 {
        let p = k.drop_last();
        let l = k.last();
        if no_lf_lines(k) {
            assert forall|i: int| 0 <= i < p.len() implies !(#[trigger] p[i]).contains('\n') by {
                assert(p[i] == k[i]);
            }
            if !all_ws(l) {
                let t = trim_end_spec(l);
                lemma_trailing_ws_bound(l);
                assert(!l.contains('\n')) by {
                    assert(l == k[k.len() - 1]);
                }
                assert(!t.contains('\n')) by {
                    if t.contains('\n') {
                        let j = choose|j: int| 0 <= j < t.len() && t[j] == '\n';
                        assert(l[j] == '\n');
                    }
                }
                let k2 = p.push(t);
                assert forall|i: int| 0 <= i < k2.len() implies !(#[trigger] k2[i]).contains('\n') by {
                    if i < p.len() {
                        assert(k2[i] == p[i]);
                    }
                }
            }
        }
        if no_start_line(k) {
            assert forall|i: int| 0 <= i < p.len() implies trim_spec(#[trigger] p[i]) != START_MARKER@ by {
                assert(p[i] == k[i]);
            }
        }
        if simple_lines(k) {
            assert forall|i: int| 0 <= i < p.len() implies simple_line(#[trigger] p[i]) by {
                assert(p[i] == k[i]);
            }
        }
        if all_ws(l) {
            lemma_trimmed_lines_props(p);
        } else {
            let t = trim_end_spec(l);
            let k2 = p.push(t);
            lemma_trim_after_trim_end(l);
            lemma_trailing_ws_bound(l);
            if no_start_line(k) {
                assert(trim_spec(l) != START_MARKER@) by {
                    assert(l == k[k.len() - 1]);
                }
                assert forall|i: int| 0 <= i < k2.len() implies trim_spec(#[trigger] k2[i]) != START_MARKER@ by {
                    if i < p.len() {
                        assert(k2[i] == p[i]);
                    }
                }
            }
            if simple_lines(k) {
                assert(simple_line(l)) by {
                    assert(l == k[k.len() - 1]);
                }
                lemma_trailing_ws_stop(l);
                assert(simple_line(t)) by {
                    if t.contains('\n') {
                        let j = choose|j: int| 0 <= j < t.len() && t[j] == '\n';
                        assert(l[j] == '\n');
                        assert(l.contains('\n'));
                    }
                    if t.len() > 0 {
                        assert(t.last() == l[l.len() - trailing_ws(l) - 1]);
                    }
                }
                assert forall|i: int| 0 <= i < k2.len() implies simple_line(#[trigger] k2[i]) by {
                    if i < p.len() {
                        assert(k2[i] == p[i]);
                    }
                }
            }
        }
    }
}

proof fn lemma_lines_with_newlines(k: Seq<Seq<char>>)
    requires
        simple_lines(k),
    ensures
        lines_of(with_newlines(k)) == k,
        k.len() > 0 ==> with_newlines(k).len() > 0 && with_newlines(k).last() == '\n',
    decreases k.len(),
{
    if k.len() == 0 {
        assert(lines_of(with_newlines(k)) =~= k);
    } else {
        let p = k.drop_last();
        let l = k.last();
        assert(simple_line(l)) by {
            assert(l == k[k.len() - 1]);
        }
        assert forall|i: int| 0 <= i < p.len() implies simple_line(#[trigger] p[i]) by {
            assert(p[i] == k[i]);
        }
        lemma_lines_with_newlines(p);
        lemma_lines_single(l);
        let wp = with_newlines(p);
        assert(with_newlines(k) =~= wp + (l + seq!['\n']));
        if p.len() == 0 {
            assert(wp =~= Seq::<char>::empty());
            assert(with_newlines(k) =~= l + seq!['\n']);
            assert(seq![l] =~= k);
        } else {
            lemma_lines_concat(wp, l + seq!['\n']);
            assert(p + seq![l] =~= k);
        }
    }
}

proof fn lemma_literal_lines()
    ensures
        simple_line(START_MARKER@),
        simple_line(MANAGED_COMMENT@),
        simple_line(END_MARKER@),
        trim_spec(START_MARKER@) == START_MARKER@,
        trim_spec(MANAGED_COMMENT@) == MANAGED_COMMENT@,
        trim_spec(END_MARKER@) == END_MARKER@,
        START_MARKER@ != END_MARKER@,
        MANAGED_COMMENT@ != START_MARKER@,
        MANAGED_COMMENT@ != END_MARKER@,
        trim_spec(Seq::<char>::empty()) != START_MARKER@,
{
    reveal_strlit("# >>> rewind init >>>");
    reveal_strlit("# <<< rewind init <<<");
    reveal_strlit("# Managed by `rw init --install`; remove with `rw init --uninstall`.");
    assert(('#' as u32) == 35);
    assert(('>' as u32) == 62);
    assert(('<' as u32) == 60);
    assert(('.' as u32) == 46);
    assert(!whitespace('#'));
    assert(!whitespace('>'));
    assert(!whitespace('<'));
    assert(!whitespace('.'));
    let lits = seq![START_MARKER@, MANAGED_COMMENT@, END_MARKER@];
    assert forall|i: int| 0 <= i < START_MARKER@.len() implies START_MARKER@[i] != '\n' by {}
    assert forall|i: int| 0 <= i < MANAGED_COMMENT@.len() implies MANAGED_COMMENT@[i] != '\n' by {}
    assert forall|i: int| 0 <= i < END_MARKER@.len() implies END_MARKER@[i] != '\n' by {}
    assert(trailing_ws(START_MARKER@) == 0);
    assert(trailing_ws(END_MARKER@) == 0);
    assert(trailing_ws(MANAGED_COMMENT@) == 0);
    assert(START_MARKER@.subrange(0, START_MARKER@.len() as int) =~= START_MARKER@);
    assert(END_MARKER@.subrange(0, END_MARKER@.len() as int) =~= END_MARKER@);
    assert(MANAGED_COMMENT@.subrange(0, MANAGED_COMMENT@.len() as int) =~= MANAGED_COMMENT@);
    assert(crate::text::leading_ws(START_MARKER@) == 0);
    assert(crate::text::leading_ws(END_MARKER@) == 0);
    assert(crate::text::leading_ws(MANAGED_COMMENT@) == 0);
    assert(START_MARKER@[2] != END_MARKER@[2]);
    let e = Seq::<char>::empty();
    assert(trailing_ws(e) == 0);
    assert(e.subrange(0, 0) =~= e);
}

proof fn lemma_block_lines(snippet: Seq<char>)
    ensures
        lines_of(managed_block_text(snippet)) == seq![START_MARKER@, MANAGED_COMMENT@]
            + lines_of(trim_spec(snippet) + seq!['\n']) + seq![END_MARKER@],
{
    lemma_literal_lines();
    let a = START_MARKER@ + seq!['\n'];
    let b = MANAGED_COMMENT@ + seq!['\n'];
    let c = trim_spec(snippet) + seq!['\n'];
    let d = END_MARKER@ + seq!['\n'];
    assert(managed_block_text(snippet) =~= a + (b + (c + d)));
    lemma_lines_single(START_MARKER@);
    lemma_lines_single(MANAGED_COMMENT@);
    lemma_lines_single(END_MARKER@);
    lemma_lines_concat(c, d);
    lemma_lines_concat(b, c + d);
    lemma_lines_concat(a, b + (c + d));
    assert(seq![START_MARKER@] + (seq![MANAGED_COMMENT@] + (lines_of(c) + seq![END_MARKER@]))
        =~= seq![START_MARKER@, MANAGED_COMMENT@] + lines_of(c) + seq![END_MARKER@]);
}

proof fn lemma_block_kept(snippet: Seq<char>)
    requires
        no_end_line(lines_of(trim_spec(snippet) + seq!['\n'])),
    ensures
        kept_lines(lines_of(managed_block_text(snippet)), false) == Seq::<Seq<char>>::empty(),
{
    lemma_literal_lines();
    lemma_block_lines(snippet);
    let sl = lines_of(trim_spec(snippet) + seq!['\n']);
    let all = seq![START_MARKER@, MANAGED_COMMENT@] + sl + seq![END_MARKER@];
    assert(all[0] == START_MARKER@);
    let r1 = all.drop_first();
    assert(r1 =~= seq![MANAGED_COMMENT@] + (sl + seq![END_MARKER@]));
    assert(r1[0] == MANAGED_COMMENT@);
    let r2 = r1.drop_first();
    assert(r2 =~= sl + seq![END_MARKER@]);
    lemma_kept_concat(sl, seq![END_MARKER@], true);
    lemma_kept_inside(sl);
    let e = seq![END_MARKER@];
    assert(e[0] == END_MARKER@);
    assert(e.drop_first() =~= Seq::<Seq<char>>::empty());
    assert(trim_spec(e[0]) == END_MARKER@);
    assert(trim_spec(e[0]) != START_MARKER@);
    assert(kept_lines(Seq::<Seq<char>>::empty(), false) =~= Seq::<Seq<char>>::empty());
    assert(kept_lines(e, true) == kept_lines(e.drop_first(), false));
    assert(kept_lines(e, true) =~= Seq::<Seq<char>>::empty());
    assert(kept_lines(r2, true) =~= Seq::<Seq<char>>::empty());
    assert(kept_lines(r1, true) == kept_lines(r2, true));
    assert(kept_lines(all, false) == kept_lines(r1, true));
}

/// The startup text after installing the integration into `existing`: the
/// text without any managed block, then the block for `snippet`.
pub open spec fn installed(existing: Seq<char>, snippet: Seq<char>) -> Seq<char> {
    appended_block(without_managed_block(existing), managed_block_text(snippet))
}

/// Installing the integration and then removing it gives back the text
/// as removing alone leaves it, provided no line of the existing text ends
/// with a carriage return (once its line ending is taken off) and no line of
/// the snippet is an end marker.
pub proof fn lemma_uninstall_after_install(existing: Seq<char>, snippet: Seq<char>)
    requires
        simple_lines(lines_of(existing)),
        no_end_line(lines_of(trim_spec(snippet) + seq!['\n'])),
    ensures
        without_managed_block(installed(existing, snippet)) == without_managed_block(existing),
{
    lemma_newline_ws();
    lemma_literal_lines();
    let k = kept_lines(lines_of(existing), false);
    lemma_kept_props(lines_of(existing), false);
    let k2 = trimmed_lines(k);
    lemma_trimmed_lines_props(k);
    lemma_trim_end_with_newlines(k);
    let w = with_newlines(k);
    let t = trim_end_spec(w);
    lemma_trim_end_trimmed(w);
    let c = without_managed_block(existing);
    assert(c == t + seq!['\n']);
    lemma_trim_end_newline(t);
    let b = managed_block_text(snippet);
    lemma_block_kept(snippet);
    if k2.len() == 0 {
        assert(t.len() == 0);
        assert(trim_end_spec(c).len() == 0);
        assert(installed(existing, snippet) == b);
        assert(with_newlines(Seq::<Seq<char>>::empty()) =~= Seq::<char>::empty());
        assert(trim_end_spec(Seq::<char>::empty()) =~= Seq::<char>::empty());
        assert(t =~= Seq::<char>::empty());
    } else {
        assert(trim_end_spec(c) == t);
        let inst = t + seq!['\n', '\n'] + b;
        assert(installed(existing, snippet) == inst);
        lemma_lines_with_newlines(k2);
        assert(with_newlines(k2) == t + seq!['\n']);
        assert(inst =~= with_newlines(k2) + (seq!['\n'] + b));
        lemma_lines_concat(with_newlines(k2), seq!['\n'] + b);
        lemma_lines_single(Seq::<char>::empty());
        assert(Seq::<char>::empty() + seq!['\n'] =~= seq!['\n']);
        lemma_lines_concat(seq!['\n'], b);
        let lb = lines_of(b);
        assert(lines_of(inst) == k2 + (seq![Seq::<char>::empty()] + lb));
        lemma_kept_plain(k2);
        lemma_kept_concat(k2, seq![Seq::<char>::empty()] + lb, false);
        let tail = seq![Seq::<char>::empty()] + lb;
        assert(tail[0] == Seq::<char>::empty());
        assert(tail.drop_first() =~= lb);
        assert(kept_lines(tail, false) == seq![Seq::<char>::empty()] + kept_lines(lb, false));
        assert(kept_lines(tail, false) =~= seq![Seq::<char>::empty()]);
        let kk = k2 + seq![Seq::<char>::empty()];
        assert(kept_lines(lines_of(inst), false) == kk);
        assert(kk.drop_last() =~= k2);
        assert(with_newlines(kk) =~= t + seq!['\n'] + Seq::<char>::empty() + seq!['\n']);
        assert(with_newlines(kk) =~= t + seq!['\n', '\n']);
    }
}

/// Installing the integration twice leaves the text as installing it once.
pub proof fn lemma_install_idempotent(existing: Seq<char>, snippet: Seq<char>)
    requires
        simple_lines(lines_of(existing)),
        no_end_line(lines_of(trim_spec(snippet) + seq!['\n'])),
    ensures
        installed(installed(existing, snippet), snippet) == installed(existing, snippet),
{
    lemma_uninstall_after_install(existing, snippet);
}

proof fn lemma_closes_after_plain(p: Seq<Seq<char>>, q: Seq<Seq<char>>)
    requires
        no_start_line(p),
    ensures
        closes_block(p + q, false) == closes_block(q, false),
    decreases p.len(),
{
    if p.len() == 0 {
        assert(p + q =~= q);
    } else {
        assert((p + q)[0] == p[0]);
        assert(trim_spec(p[0]) != START_MARKER@);
        let rest = p.drop_first();
        assert((p + q).drop_first() =~= rest + q);
        assert forall|i: int| 0 <= i < rest.len() implies trim_spec(#[trigger] rest[i]) != START_MARKER@ by {
            assert(rest[i] == p[i + 1]);
        }
        lemma_closes_after_plain(rest, q);
    }
}

/// Each line with a carriage return at its end taken off.
pub open spec fn stripped(lines: Seq<Seq<char>>) -> Seq<Seq<char>> {
    Seq::new(lines.len(), |i: int| strip_cr(lines[i]))
}

/// Lines without line feeds, each followed by a line feed, split back into
/// the same lines less a carriage return at their ends.
proof fn lemma_lines_with_newlines_any(k: Seq<Seq<char>>)
    requires
        no_lf_lines(k),
    ensures
        lines_of(with_newlines(k)) == stripped(k),
        k.len() > 0 ==> with_newlines(k).len() > 0 && with_newlines(k).last() == '\n',
    decreases k.len(),
{
    if k.len() == 0 {
        assert(lines_of(with_newlines(k)) =~= stripped(k));
    } else {
        let p = k.drop_last();
        let l = k.last();
        assert(!l.contains('\n')) by {
            assert(l == k[k.len() - 1]);
        }
        assert forall|i: int| 0 <= i < p.len() implies !(#[trigger] p[i]).contains('\n') by {
            assert(p[i] == k[i]);
        }
        lemma_lines_with_newlines_any(p);
        lemma_lines_single_line(l);
        let wp = with_newlines(p);
        assert(with_newlines(k) =~= wp + (l + seq!['\n']));
        if p.len() == 0 {
            assert(wp =~= Seq::<char>::empty());
            assert(with_newlines(k) =~= l + seq!['\n']);
            assert(seq![strip_cr(l)] =~= stripped(k));
        } else {
            lemma_lines_concat(wp, l + seq!['\n']);
            assert(stripped(p) + seq![strip_cr(l)] =~= stripped(k));
        }
    }
}

proof fn lemma_stripped_no_start(k: Seq<Seq<char>>)
    requires
        no_start_line(k),
    ensures
        no_start_line(stripped(k)),
{
    assert forall|i: int| 0 <= i < stripped(k).len() implies trim_spec(#[trigger] stripped(k)[i])
        != START_MARKER@ by {
        lemma_trim_strip_cr(k[i]);
    }
}

/// A block closes in `p + q` when it closes in `p`, or in `q` read from the
/// state `p` leaves.
proof fn lemma_closes_concat(p: Seq<Seq<char>>, q: Seq<Seq<char>>, inside: bool)
    ensures
        closes_block(p + q, inside) == (closes_block(p, inside) || closes_block(
            q,
            block_open_after(p, inside),
        )),
    decreases p.len(),
{
    if p.len() == 0 {
        assert(p + q =~= q);
    } else {
        assert((p + q)[0] == p[0]);
        assert((p + q).drop_first() =~= p.drop_first() + q);
        let t = trim_spec(p[0]);
        let rest = p.drop_first();
        if t == START_MARKER@ {
            lemma_closes_concat(rest, q, true);
        } else if t == END_MARKER@ && inside {
        } else {
            lemma_closes_concat(rest, q, inside);
        }
    }
}

/// Inside a block, lines followed by an end marker close it.
proof fn lemma_closes_before_end(sl: Seq<Seq<char>>)
    ensures
        closes_block(sl + seq![END_MARKER@], true),
    decreases sl.len(),
{
    lemma_literal_lines();
    let all = sl + seq![END_MARKER@];
    if sl.len() == 0 {
        assert(all =~= seq![END_MARKER@]);
        assert(all[0] == END_MARKER@);
    } else {
        assert(all[0] == sl[0]);
        assert(all.drop_first() =~= sl.drop_first() + seq![END_MARKER@]);
        lemma_closes_before_end(sl.drop_first());
    }
}

/// A managed block closes whatever state it is read from.
proof fn lemma_block_closes_any(snippet: Seq<char>, inside: bool)
    ensures
        closes_block(lines_of(managed_block_text(snippet)), inside),
{
    lemma_literal_lines();
    lemma_block_lines(snippet);
    let sl = lines_of(trim_spec(snippet) + seq!['\n']);
    let all = seq![START_MARKER@, MANAGED_COMMENT@] + sl + seq![END_MARKER@];
    assert(all[0] == START_MARKER@);
    let r1 = all.drop_first();
    assert(r1 =~= seq![MANAGED_COMMENT@] + (sl + seq![END_MARKER@]));
    assert(r1[0] == MANAGED_COMMENT@);
    let r2 = r1.drop_first();
    assert(r2 =~= sl + seq![END_MARKER@]);
    lemma_closes_before_end(sl);
    assert(trim_spec(r1[0]) == MANAGED_COMMENT@);
    assert(closes_block(r1, true) == closes_block(r2, true));
    assert(trim_spec(all[0]) == START_MARKER@);
}

/// Appending the managed block for any snippet to any text leaves a text
/// that holds a complete managed block.
pub proof fn lemma_append_adds_block(existing: Seq<char>, snippet: Seq<char>)
    ensures
        closes_block(lines_of(appended_block(existing, managed_block_text(snippet))), false),
{
    lemma_literal_lines();
    let b = managed_block_text(snippet);
    let e = trim_end_spec(existing);
    lemma_block_closes_any(snippet, false);
    if e.len() > 0 {
        let a = e + seq!['\n'];
        let inst = a + (seq!['\n'] + b);
        assert(appended_block(existing, b) =~= inst);
        lemma_lines_concat(a, seq!['\n'] + b);
        lemma_lines_single(Seq::<char>::empty());
        assert(Seq::<char>::empty() + seq!['\n'] =~= seq!['\n']);
        lemma_lines_concat(seq!['\n'], b);
        let tail = seq![Seq::<char>::empty()] + lines_of(b);
        assert(lines_of(inst) == lines_of(a) + tail);
        lemma_closes_concat(lines_of(a), tail, false);
        let st = block_open_after(lines_of(a), false);
        lemma_block_closes_any(snippet, st);
        assert(tail[0] == Seq::<char>::empty());
        assert(tail.drop_first() =~= lines_of(b));
        assert(trim_spec(Seq::<char>::empty()) != END_MARKER@) by {
            reveal_strlit("# <<< rewind init <<<");
            assert(END_MARKER@.len() > 0);
            assert(trim_spec(Seq::<char>::empty()).len() == 0) by {
                assert(trailing_ws(Seq::<char>::empty()) == 0);
            }
        }
        assert(closes_block(tail, st));
    }
}

/// Removing the managed blocks leaves no complete block behind, whatever the
/// text.
pub proof fn lemma_uninstall_removes_block(existing: Seq<char>)
    ensures
        !closes_block(lines_of(without_managed_block(existing)), false),
{
    lemma_newline_ws();
    lemma_literal_lines();
    lemma_lines_no_lf(existing);
    let k = kept_lines(lines_of(existing), false);
    lemma_kept_props(lines_of(existing), false);
    let k2 = trimmed_lines(k);
    lemma_trimmed_lines_props(k);
    lemma_trim_end_with_newlines(k);
    let t = trim_end_spec(with_newlines(k));
    let c = without_managed_block(existing);
    let none = Seq::<Seq<char>>::empty();
    if k2.len() == 0 {
        assert(t =~= Seq::<char>::empty());
        assert(c =~= Seq::<char>::empty() + seq!['\n']);
        lemma_lines_single(Seq::<char>::empty());
        assert(lines_of(c) == seq![Seq::<char>::empty()]);
        assert(no_start_line(seq![Seq::<char>::empty()]));
        lemma_closes_after_plain(seq![Seq::<char>::empty()], none);
    } else {
        lemma_lines_with_newlines_any(k2);
        assert(lines_of(c) == stripped(k2));
        lemma_stripped_no_start(k2);
        lemma_closes_after_plain(stripped(k2), none);
        assert(stripped(k2) + none =~= stripped(k2));
    }
    assert(!closes_block(none, false));
}

/// After installing, the text holds a complete managed block, whatever the
/// text and the snippet.
pub proof fn lemma_install_adds_block(existing: Seq<char>, snippet: Seq<char>)
    ensures
        closes_block(lines_of(installed(existing, snippet)), false),
{
    lemma_append_adds_block(without_managed_block(existing), snippet);
}

/// Removing the managed blocks twice leaves the text as removing them once,
/// provided no line of the text ends with a carriage return (once its line
/// ending is taken off).
pub proof fn lemma_uninstall_idempotent(existing: Seq<char>)
    requires
        simple_lines(lines_of(existing)),
    ensures
        without_managed_block(without_managed_block(existing)) == without_managed_block(existing),
{
    lemma_newline_ws();
    lemma_literal_lines();
    let k = kept_lines(lines_of(existing), false);
    lemma_kept_props(lines_of(existing), false);
    let k2 = trimmed_lines(k);
    lemma_trimmed_lines_props(k);
    lemma_trim_end_with_newlines(k);
    let w = with_newlines(k);
    let t = trim_end_spec(w);
    lemma_trim_end_trimmed(w);
    let c = without_managed_block(existing);
    assert(c == t + seq!['\n']);
    lemma_trim_end_newline(t);
    if k2.len() == 0 {
        assert(t =~= Seq::<char>::empty());
        lemma_lines_single(Seq::<char>::empty());
        assert(Seq::<char>::empty() + seq!['\n'] =~= seq!['\n']);
        assert(lines_of(c) == seq![Seq::<char>::empty()]);
        lemma_kept_plain(seq![Seq::<char>::empty()]);
        lemma_with_newlines_single(Seq::<char>::empty());
        assert(with_newlines(seq![Seq::<char>::empty()]) =~= seq!['\n']);
        assert(trim_end_spec(seq!['\n']) =~= Seq::<char>::empty());
    } else {
        lemma_lines_with_newlines(k2);
        assert(lines_of(c) == k2);
        lemma_kept_plain(k2);
        assert(with_newlines(k2) == t + seq!['\n']);
    }
}

} // verus!
