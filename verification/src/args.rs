use vstd::prelude::*;

use crate::text::{string_views, chars_eq_str, chars_of, chars_start_with, string_from_char_range};

verus! {

/// A single-quoted shell word: each `'` inside becomes `'\''`.
pub open spec fn escape_quotes(a: Seq<char>) -> Seq<char>
    decreases a.len(),
{
    if a.len() == 0 {
        Seq::empty()
    } else {
        escape_quotes(a.drop_last()) + if a.last() == '\'' {
            seq!['\'', '\\', '\'', '\'']
        } else {
            seq![a.last()]
        }
    }
}

/// An argument as one single-quoted shell word.
pub open spec fn quote_arg(a: Seq<char>) -> Seq<char> {
    seq!['\''] + escape_quotes(a) + seq!['\'']
}

/// The arguments quoted one by one and joined with single spaces.
pub open spec fn quoted_command(args: Seq<Seq<char>>) -> Seq<char>
    decreases args.len(),
{
    if args.len() == 0 {
        Seq::empty()
    } else if args.len() == 1 {
        quote_arg(args[0])
    } else {
        quoted_command(args.drop_last()) + seq![' '] + quote_arg(args.last())
    }
}

fn push_quoted(out: &mut String, arg: &str)
    ensures
        final(out)@ == old(out)@ + quote_arg(arg@),
{
    let cs = chars_of(arg);
    crate::text::push_char(out, '\'');
    let ghost start = out@;
    let mut i: usize = 0;
    while i < cs.len()
        invariant
            i <= cs@.len(),
            cs@ == arg@,
            out@ == start + escape_quotes(cs@.subrange(0, i as int)),
        decreases cs@.len() - i,
    {
        let c = cs[i];
        if c == '\'' {
            crate::text::push_char(out, '\'');
            crate::text::push_char(out, '\\');
            crate::text::push_char(out, '\'');
            crate::text::push_char(out, '\'');
        } else {
            crate::text::push_char(out, c);
        }
        i = i + 1;
        assert(cs@.subrange(0, i as int).drop_last() =~= cs@.subrange(0, i - 1));
        assert(out@ =~= start + escape_quotes(cs@.subrange(0, i as int)));
    }
    crate::text::push_char(out, '\'');
    assert(cs@.subrange(0, cs@.len() as int) =~= cs@);
    assert(final(out)@ =~= old(out)@ + quote_arg(arg@));
}

/// Wraps each argument in single quotes, escaping any single quotes within,
/// and joins them with spaces.
pub fn parse_cmd_args(cmd: &[String]) -> (s: String)
    ensures
        s@ == quoted_command(string_views(cmd@)),
{
    let ghost vs = string_views(cmd@);
    let mut s = String::new();
    let mut i: usize = 0;
    while i < cmd.len()
        invariant
            i <= cmd@.len(),
            vs == string_views(cmd@),
            s@ == quoted_command(vs.subrange(0, i as int)),
        decreases cmd@.len() - i,
    {
        if i > 0 {
            crate::text::push_char(&mut s, ' ');
        }
        push_quoted(&mut s, cmd[i].as_str());
        i = i + 1;
        assert(vs.subrange(0, i as int).drop_last() =~= vs.subrange(0, i - 1));
        if i == 1 {
            assert(vs.subrange(0, 0) =~= Seq::<Seq<char>>::empty());
        }
        assert(s@ =~= quoted_command(vs.subrange(0, i as int)));
    }
    assert(vs.subrange(0, cmd@.len() as int) =~= vs);
    s
}

/// A grouped short history flag that takes no value.
pub open spec fn is_short_switch(c: char) -> bool {
    c == 'c' || c == 'r' || c == 'b' || c == 'o' || c == 'f' || c == 'd' || c == 'p'
}

/// How many arguments a run of short history flags spans, when every flag is
/// a history flag: `l` takes the next argument unless it ends the run.
pub open spec fn short_flags_span(flags: Seq<char>) -> Option<nat>
    decreases flags.len(),
{
    if flags.len() == 0 {
        Some(1)
    } else if is_short_switch(flags[0]) {
        short_flags_span(flags.drop_first())
    } else if flags[0] == 'l' {
        Some(if flags.len() > 1 { 1nat } else { 2nat })
    } else {
        None
    }
}

/// The number of arguments a grouped short history option such as `-ocl`
/// spans, or None when the argument is not one.
pub open spec fn short_option_span(arg: Seq<char>) -> Option<nat> {
    if arg.len() == 0 || arg[0] != '-' || (arg.len() >= 2 && arg[1] == '-') || arg.len() == 1 {
        None
    } else {
        short_flags_span(arg.drop_first())
    }
}

/// Span of a grouped short history option (see `short_option_span`).
pub fn short_history_option_span(arg: &str) -> (r: Option<usize>)
    ensures
        match r {
            Some(n) => short_option_span(arg@) == Some(n as nat),
            None => short_option_span(arg@).is_none(),
        },
{
    let cs = chars_of(arg);
    short_span_of_chars(&cs)
}

fn short_span_of_chars(cs: &Vec<char>) -> (r: Option<usize>)
    ensures
        match r {
            Some(n) => short_option_span(cs@) == Some(n as nat),
            None => short_option_span(cs@).is_none(),
        },
{
    if cs.len() == 0 || cs[0] != '-' || (cs.len() >= 2 && cs[1] == '-') || cs.len() == 1 {
        return None;
    }
    let mut i: usize = 1;
    assert(cs@.drop_first() =~= cs@.subrange(1, cs@.len() as int));
    while i < cs.len()
        invariant
            1 <= i <= cs@.len(),
            short_option_span(cs@) == short_flags_span(cs@.drop_first()),
            short_flags_span(cs@.drop_first()) == short_flags_span(cs@.subrange(i as int, cs@.len() as int)),
        decreases cs@.len() - i,
    {
        let c = cs[i];
        assert(cs@.subrange(i as int, cs@.len() as int)[0] == c);
        if c == 'c' || c == 'r' || c == 'b' || c == 'o' || c == 'f' || c == 'd' || c == 'p' {
            assert(cs@.subrange(i as int, cs@.len() as int).drop_first() =~= cs@.subrange(i + 1, cs@.len() as int));
            i = i + 1;
        } else if c == 'l' {
            assert(cs@.subrange(i as int, cs@.len() as int).len() == cs@.len() - i);
            return Some(if i + 1 < cs.len() { 1 } else { 2 });
        } else {
            assert(!is_short_switch(c));
            return None;
        }
    }
    assert(cs@.subrange(i as int, cs@.len() as int) =~= Seq::<char>::empty());
    Some(1)
}

/// A history selector such as `-3`: a dash followed by one or more digits.
pub open spec fn is_selector(arg: Seq<char>) -> bool {
    &&& arg.len() >= 2
    &&& arg[0] == '-'
    &&& forall|i: int| 1 <= i < arg.len() ==> '0' <= #[trigger] arg[i] && arg[i] <= '9'
}

/// Whether the text begins with `p`.
pub open spec fn starts_with(a: Seq<char>, p: Seq<char>) -> bool {
    p.len() <= a.len() && a.subrange(0, p.len() as int) == p
}

/// How many arguments a history option spans, or None when the argument is
/// not a history option.
pub open spec fn history_option_span(arg: Seq<char>) -> Option<nat> {
    if arg == "-l"@ || arg == "--limit"@ {
        Some(2)
    } else if arg == "--cwd"@ || arg == "--repo"@ || arg == "--branch"@ || arg == "--ok"@
        || arg == "--fail"@ || arg == "--deleted"@ || arg == "--plain"@ {
        Some(1)
    } else if starts_with(arg, "--limit="@) {
        Some(1)
    } else {
        short_option_span(arg)
    }
}

/// The position of the history selector among the arguments, scanning from
/// position `i` over history options only.
pub open spec fn selector_position(args: Seq<Seq<char>>, i: nat) -> Option<nat>
    decreases args.len() - i,
{
    if i >= args.len() {
        None
    } else if is_selector(args[i as int]) {
        Some(i)
    } else {
        match history_option_span(args[i as int]) {
            Some(k) => if k > 0 && i + k < args.len() {
                selector_position(args, i + k)
            } else {
                None
            },
            None => None,
        }
    }
}

/// The arguments with the first history selector `-N` (found before any
/// non-history argument, after the program name) replaced by `--index N`.
pub open spec fn normalized_args(args: Seq<Seq<char>>) -> Seq<Seq<char>> {
    match selector_position(args, 1) {
        Some(p) => args.subrange(0, p as int) + seq!["--index"@, args[p as int].drop_first()]
            + args.subrange((p + 1) as int, args.len() as int),
        None => args,
    }
}

fn is_selector_chars(cs: &Vec<char>) -> (r: bool)
    ensures
        r == is_selector(cs@),
{
    if cs.len() < 2 || cs[0] != '-' {
        return false;
    }
    let mut i: usize = 1;
    while i < cs.len()
        invariant
            1 <= i <= cs@.len(),
            forall|j: int| 1 <= j < i ==> '0' <= #[trigger] cs@[j] && cs@[j] <= '9',
        decreases cs@.len() - i,
    {
        if !('0' <= cs[i] && cs[i] <= '9') {
            return false;
        }
        i = i + 1;
    }
    true
}

fn history_option_span_of(cs: &Vec<char>) -> (r: Option<usize>)
    ensures
        match r {
            Some(n) => history_option_span(cs@) == Some(n as nat),
            None => history_option_span(cs@).is_none(),
        },
{
    if chars_eq_str(cs, "-l") || chars_eq_str(cs, "--limit") {
        Some(2)
    } else if chars_eq_str(cs, "--cwd") || chars_eq_str(cs, "--repo") || chars_eq_str(cs, "--branch")
        || chars_eq_str(cs, "--ok") || chars_eq_str(cs, "--fail") || chars_eq_str(cs, "--deleted")
        || chars_eq_str(cs, "--plain") {
        Some(1)
    } else if chars_start_with(cs, "--limit=") {
        Some(1)
    } else {
        short_span_of_chars(cs)
    }
}

/// Rewrites a leading history selector `-N` into `--index N` so that the
/// argument parser can read it; other arguments are left unchanged.
pub fn normalize_history_selector(args: Vec<String>) -> (r: Vec<String>)
    ensures
        string_views(r@) == normalized_args(string_views(args@)),
{
    let ghost vs = string_views(args@);
    let mut index: usize = 1;
    while index < args.len()
        invariant
            vs == string_views(args@),
            1 <= index,
            selector_position(vs, 1) == selector_position(vs, index as nat),
        decreases args@.len() - index,
    {
        let cs = chars_of(args[index].as_str());
        if is_selector_chars(&cs) {
            let digits = string_from_char_range(&cs, 1);
            assert(digits@ =~= vs[index as int].drop_first());
            let mut out: Vec<String> = Vec::new();
            let mut j: usize = 0;
            while j < index
                invariant
                    j <= index < args@.len(),
                    vs == string_views(args@),
                    out@.len() == j,
                    forall|i: int| 0 <= i < j ==> #[trigger] out@[i]@ == vs[i],
                decreases index - j,
            {
                out.push(args[j].clone());
                j = j + 1;
            }
            out.push(String::from_str("--index"));
            out.push(digits);
            let mut k: usize = index + 1;
            while k < args.len()
                invariant
                    index < k <= args@.len(),
                    vs == string_views(args@),
                    out@.len() == k + 1,
                    forall|i: int| 0 <= i < index ==> #[trigger] out@[i]@ == vs[i],
                    out@[index as int]@ == "--index"@,
                    out@[index + 1]@ == vs[index as int].drop_first(),
                    forall|i: int| index + 1 < i < k + 1 ==> #[trigger] out@[i]@ == vs[i - 1],
                decreases args@.len() - k,
            {
                out.push(args[k].clone());
                k = k + 1;
            }
            assert(string_views(out@) =~= normalized_args(vs)) by {
                assert(selector_position(vs, 1) == Some(index as nat));
            }
            return out;
        }
        match history_option_span_of(&cs) {
            Some(k) => {
                if k == 0 || k >= args.len() - index {
                    return args;
                }
                index = index + k;
            },
            None => {
                return args;
            },
        }
    }
    args
}

/// A command line whose first argument after the program name is not an
/// option (such as a subcommand with its own arguments) is left unchanged.
pub proof fn lemma_subcommand_args_unchanged(args: Seq<Seq<char>>)
    requires
        args.len() > 1,
        args[1].len() == 0 || args[1][0] != '-',
    ensures
        normalized_args(args) == args,
{
    reveal_strlit("-l");
    reveal_strlit("--limit");
    reveal_strlit("--cwd");
    reveal_strlit("--repo");
    reveal_strlit("--branch");
    reveal_strlit("--ok");
    reveal_strlit("--fail");
    reveal_strlit("--deleted");
    reveal_strlit("--plain");
    reveal_strlit("--limit=");
    let a = args[1];
    assert(!is_selector(a));
    assert(a != "-l"@ && a != "--limit"@ && a != "--cwd"@ && a != "--repo"@ && a != "--branch"@);
    assert(a != "--ok"@ && a != "--fail"@ && a != "--deleted"@ && a != "--plain"@);
    if starts_with(a, "--limit="@) {
        assert(a.subrange(0, 8)[0] == a[0]);
    }
    assert(history_option_span(a).is_none());
    assert(selector_position(args, 1).is_none());
}

/// Where the shell is while reading words: between words, inside an
/// unquoted part of a word, or inside single quotes.
pub enum ShellMode {
    Between,
    Unquoted,
    Quoted,
}

/// The words a POSIX shell reads from the text, from the given state with
/// the word read so far and the words before it: blanks (space, tab)
/// outside quotes separate words, single quotes take everything up to the
/// next single quote literally, and a backslash outside quotes takes the
/// next character literally. Quote removal drops the quotes and
/// backslashes. (Other characters are kept as they are, which is how the
/// shell reads them when they are quoted, as `parse_cmd_args` quotes them.)
pub open spec fn shell_words_from(
    s: Seq<char>,
    mode: ShellMode,
    cur: Seq<char>,
    acc: Seq<Seq<char>>,
) -> Seq<Seq<char>>
    decreases s.len(),
{
    if s.len() == 0 {
        match mode {
            ShellMode::Between => acc,
            _ => acc.push(cur),
        }
    } else {
        let c = s[0];
        let rest = s.drop_first();
        match mode {
            ShellMode::Quoted => if c == '\'' {
                shell_words_from(rest, ShellMode::Unquoted, cur, acc)
            } else {
                shell_words_from(rest, ShellMode::Quoted, cur.push(c), acc)
            },
            _ => {
                let word = match mode {
                    ShellMode::Between => Seq::<char>::empty(),
                    _ => cur,
                };
                if c == ' ' || c == '\t' {
                    match mode {
                        ShellMode::Between => shell_words_from(rest, ShellMode::Between, cur, acc),
                        _ => shell_words_from(rest, ShellMode::Between, Seq::empty(), acc.push(cur)),
                    }
                } else if c == '\'' {
                    shell_words_from(rest, ShellMode::Quoted, word, acc)
                } else if c == '\\' && rest.len() > 0 {
                    shell_words_from(rest.drop_first(), ShellMode::Unquoted, word.push(rest[0]), acc)
                } else {
                    shell_words_from(rest, ShellMode::Unquoted, word.push(c), acc)
                }
            },
        }
    }
}

/// The words a POSIX shell reads from a command line (see
/// `shell_words_from`).
pub open spec fn shell_words(s: Seq<char>) -> Seq<Seq<char>> {
    shell_words_from(s, ShellMode::Between, Seq::empty(), Seq::empty())
}

proof fn lemma_escaped_read(a: Seq<char>, rest: Seq<char>, cur: Seq<char>, acc: Seq<Seq<char>>)
    ensures
        shell_words_from(escape_quotes(a) + rest, ShellMode::Quoted, cur, acc) == shell_words_from(
            rest,
            ShellMode::Quoted,
            cur + a,
            acc,
        ),
    decreases a.len(),
{
    if a.len() == 0 {
        assert(escape_quotes(a) + rest =~= rest);
        assert(cur + a =~= cur);
    } else {
        let p = a.drop_last();
        let l = a.last();
        let e = if l == '\'' {
            seq!['\'', '\\', '\'', '\'']
        } else {
            seq![l]
        };
        assert(escape_quotes(a) + rest =~= escape_quotes(p) + (e + rest));
        lemma_escaped_read(p, e + rest, cur, acc);
        let c2 = cur + p;
        if l == '\'' {
            let s1 = e + rest;
            assert(s1[0] == '\'');
            let s2 = s1.drop_first();
            assert(s2[0] == '\\' && s2.drop_first().len() > 0 && s2.drop_first()[0] == '\'');
            let s3 = s2.drop_first().drop_first();
            assert(s3[0] == '\'');
            assert(s3.drop_first() =~= rest);
            assert(shell_words_from(s1, ShellMode::Quoted, c2, acc) == shell_words_from(s2, ShellMode::Unquoted, c2, acc));
            assert(shell_words_from(s2, ShellMode::Unquoted, c2, acc) == shell_words_from(
                s3,
                ShellMode::Unquoted,
                c2.push('\''),
                acc,
            ));
            assert(shell_words_from(s3, ShellMode::Unquoted, c2.push('\''), acc) == shell_words_from(
                rest,
                ShellMode::Quoted,
                c2.push('\''),
                acc,
            ));
            assert(c2.push('\'') =~= cur + a);
        } else {
            assert((e + rest)[0] == l);
            assert((e + rest).drop_first() =~= rest);
            assert(shell_words_from(e + rest, ShellMode::Quoted, c2, acc) == shell_words_from(
                rest,
                ShellMode::Quoted,
                c2.push(l),
                acc,
            ));
            assert(c2.push(l) =~= cur + a);
        }
    }
}

proof fn lemma_quoted_read(a: Seq<char>, rest: Seq<char>, acc: Seq<Seq<char>>)
    ensures
        shell_words_from(quote_arg(a) + rest, ShellMode::Between, Seq::empty(), acc) == shell_words_from(
            rest,
            ShellMode::Unquoted,
            a,
            acc,
        ),
{
    let s = quote_arg(a) + rest;
    assert(s[0] == '\'');
    assert(s.drop_first() =~= escape_quotes(a) + (seq!['\''] + rest));
    lemma_escaped_read(a, seq!['\''] + rest, Seq::empty(), acc);
    assert(Seq::<char>::empty() + a =~= a);
    assert((seq!['\''] + rest)[0] == '\'');
    assert((seq!['\''] + rest).drop_first() =~= rest);
}

proof fn lemma_command_read(args: Seq<Seq<char>>, rest: Seq<char>, acc: Seq<Seq<char>>)
    requires
        args.len() > 0,
    ensures
        shell_words_from(quoted_command(args) + rest, ShellMode::Between, Seq::empty(), acc)
            == shell_words_from(rest, ShellMode::Unquoted, args.last(), acc + args.drop_last()),
    decreases args.len(),
{
    if args.len() == 1 {
        lemma_quoted_read(args[0], rest, acc);
        assert(acc + args.drop_last() =~= acc);
    } else {
        let p = args.drop_last();
        let l = args.last();
        let tail = seq![' '] + quote_arg(l) + rest;
        assert(quoted_command(args) + rest =~= quoted_command(p) + tail);
        lemma_command_read(p, tail, acc);
        assert(tail[0] == ' ');
        assert(tail.drop_first() =~= quote_arg(l) + rest);
        lemma_quoted_read(l, rest, (acc + p.drop_last()).push(p.last()));
        assert((acc + p.drop_last()).push(p.last()) =~= acc + args.drop_last());
    }
}

/// The shell reads the command line `parse_cmd_args` builds back into the
/// arguments it was built from, one word each, empty ones included.
pub proof fn lemma_shell_reads_quoted_args(args: Seq<Seq<char>>)
    ensures
        shell_words(quoted_command(args)) == args,
{
    if args.len() == 0 {
        assert(shell_words(quoted_command(args)) =~= args);
    } else {
        lemma_command_read(args, Seq::empty(), Seq::empty());
        assert(quoted_command(args) + Seq::<char>::empty() =~= quoted_command(args));
        assert((Seq::<Seq<char>>::empty() + args.drop_last()).push(args.last()) =~= args);
    }
}

/// A history flag that takes no value: `--cwd`, `--repo`, `--branch`,
/// `--ok`, `--fail`, `--deleted` or `--plain`.
pub open spec fn is_history_switch(a: Seq<char>) -> bool {
    ||| a == "--cwd"@
    ||| a == "--repo"@
    ||| a == "--branch"@
    ||| a == "--ok"@
    ||| a == "--fail"@
    ||| a == "--deleted"@
    ||| a == "--plain"@
}

proof fn lemma_switch_spans_one(a: Seq<char>)
    requires
        is_history_switch(a),
    ensures
        history_option_span(a) == Some(1nat),
        !is_selector(a),
{
    reveal_strlit("-l");
    reveal_strlit("--limit");
    reveal_strlit("--cwd");
    reveal_strlit("--repo");
    reveal_strlit("--branch");
    reveal_strlit("--ok");
    reveal_strlit("--fail");
    reveal_strlit("--deleted");
    reveal_strlit("--plain");
    if a == "--cwd"@ {
        assert(a.len() == 5 && a[1] == '-');
    } else if a == "--repo"@ {
        assert(a.len() == 6 && a[1] == '-');
    } else if a == "--branch"@ {
        assert(a.len() == 8 && a[1] == '-');
    } else if a == "--ok"@ {
        assert(a.len() == 4 && a[1] == '-');
    } else if a == "--fail"@ {
        assert(a.len() == 6 && a[1] == '-');
    } else if a == "--deleted"@ {
        assert(a.len() == 9 && a[1] == '-');
    } else {
        assert(a.len() == 7 && a[1] == '-');
    }
    assert(a != "-l"@) by {
        assert("-l"@.len() == 2 && "-l"@[1] == 'l');
    }
    assert(a != "--limit"@) by {
        assert("--limit"@.len() == 7 && "--limit"@[2] == 'l');
        if a.len() == 7 {
            assert(a == "--plain"@);
            assert(a[2] == 'p');
        }
    }
}

proof fn lemma_selector_found_after_switches(args: Seq<Seq<char>>, i: nat, k: nat)
    requires
        1 <= i <= k < args.len(),
        forall|j: int| i <= j < k ==> is_history_switch(#[trigger] args[j]),
        args[k as int].len() >= 2,
        args[k as int][0] == '-',
        forall|j: int| 1 <= j < args[k as int].len() ==> '0' <= #[trigger] args[k as int][j] && args[k as int][j] <= '9',
    ensures
        selector_position(args, i) == Some(k),
    decreases k - i,
{
    if i < k {
        lemma_switch_spans_one(args[i as int]);
        lemma_selector_found_after_switches(args, i + 1, k);
    }
}

/// A history selector `-N` that follows the program name and any number of
/// history flags without values (`--cwd`, `--repo`, `--branch`, `--ok`,
/// `--fail`, `--deleted`, `--plain`) is rewritten to `--index N`, and every
/// other argument is kept in place.
pub proof fn lemma_selector_after_switches_rewritten(args: Seq<Seq<char>>, k: int)
    requires
        1 <= k < args.len(),
        forall|j: int| 1 <= j < k ==> is_history_switch(#[trigger] args[j]),
        args[k].len() >= 2,
        args[k][0] == '-',
        forall|j: int| 1 <= j < args[k].len() ==> '0' <= #[trigger] args[k][j] && args[k][j] <= '9',
    ensures
        normalized_args(args) == args.take(k) + seq!["--index"@, args[k].drop_first()] + args.skip(k + 1),
{
    lemma_selector_found_after_switches(args, 1, k as nat);
    assert(args.subrange(0, k) =~= args.take(k));
    assert(args.subrange(k + 1, args.len() as int) =~= args.skip(k + 1));
}

} // verus!
