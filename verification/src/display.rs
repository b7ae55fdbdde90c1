use vstd::prelude::*;

use crate::entry::Entry;
use crate::filter::{Filter, FilterContext, FilterShortcut, FilterToggle};
use crate::text::{
    opt_str_view,
    chars_of, lines_of, push_char, push_signed_decimal, signed_decimal, split_lines,
    str_eq, string_from_char_range, string_views,
};

verus! {

/// The branch tag shown after the status: ` [branch]`, or nothing.
pub open spec fn branch_label(branch: Option<Seq<char>>) -> Seq<char> {
    match branch {
        Some(b) => " ["@ + b + "]"@,
        None => Seq::empty(),
    }
}

/// The branch tag for an entry's branch.
pub fn format_branch_label(branch: Option<&str>) -> (r: String)
    ensures
        r@ == branch_label(opt_str_view(branch)),
{
    match branch {
        Some(b) => {
            let mut r = String::from_str(" [");
            r.append(b);
            r.append("]");
            r
        },
        None => String::new(),
    }
}

/// The lines a command is edited as: its lines, or one empty line for an
/// empty command.
pub open spec fn command_lines_of(command: Seq<char>) -> Seq<Seq<char>> {
    if command.len() == 0 {
        seq![Seq::empty()]
    } else {
        lines_of(command)
    }
}

/// The lines a command is edited as.
pub fn command_lines(command: &str) -> (r: Vec<String>)
    ensures
        string_views(r@) == command_lines_of(command@),
{
    if command.unicode_len() == 0 {
        let r = vec![String::new()];
        assert(string_views(r@) =~= seq![Seq::<char>::empty()]);
        return r;
    }
    split_lines(command)
}

/// The mark for an entry's outcome: a tick for success, a cross for a
/// failure, a question mark while it runs.
pub open spec fn status_mark(exit_code: Option<i32>) -> Seq<char> {
    match exit_code {
        Some(c) => if c == 0 {
            "✓"@
        } else {
            "✗"@
        },
        None => "?"@,
    }
}

/// The mark for an entry's outcome.
pub fn status_symbol(exit_code: Option<i32>) -> (r: &'static str)
    ensures
        r@ == status_mark(exit_code),
{
    match exit_code {
        Some(c) => if c == 0 {
            "✓"
        } else {
            "✗"
        },
        None => "?",
    }
}

/// The outcome shown in the context bar.
pub open spec fn exit_status_text(exit_code: Option<i32>) -> Seq<char> {
    match exit_code {
        None => "● running"@,
        Some(c) => "exit "@ + signed_decimal(c as int),
    }
}

/// The outcome shown in the context bar: `● running`, or `exit` and the
/// code.
pub fn exit_status_label(exit_code: Option<i32>) -> (r: String)
    ensures
        r@ == exit_status_text(exit_code),
{
    match exit_code {
        None => String::from_str("● running"),
        Some(c) => {
            let mut r = String::from_str("exit ");
            push_signed_decimal(&mut r, c as i64);
            r
        },
    }
}

/// A working directory with the home directory written as `~`: the home
/// directory itself, or a path below it (the rest starts with `/`). An
/// unknown or empty home leaves the path as it is.
pub open spec fn shortened_path(cwd: Seq<char>, home: Option<Seq<char>>) -> Seq<char> {
    match home {
        None => cwd,
        Some(h) => if h.len() == 0 {
            cwd
        } else if cwd == h {
            "~"@
        } else if h.len() < cwd.len() && cwd.subrange(0, h.len() as int) == h && cwd[h.len() as int]
            == '/' {
            seq!['~'] + cwd.subrange(h.len() as int, cwd.len() as int)
        } else {
            cwd
        },
    }
}

/// A working directory with the home directory written as `~`.
pub fn shorten_home_path(cwd: &str, home: Option<&str>) -> (r: String)
    ensures
        r@ == shortened_path(cwd@, opt_str_view(home)),
{
    let h = match home {
        None => return cwd.to_owned(),
        Some(h) => h,
    };
    let hn = h.unicode_len();
    if hn == 0 {
        return cwd.to_owned();
    }
    if str_eq(cwd, h) {
        return String::from_str("~");
    }
    let cs = chars_of(cwd);
    if hn >= cs.len() {
        return cwd.to_owned();
    }
    let mut i: usize = 0;
    while i < hn
        invariant
            cs@ == cwd@,
            hn == h@.len(),
            hn > 0,
            hn < cs@.len(),
            cwd@ != h@,
            opt_str_view(home) == Some(h@),
            i <= hn,
            forall|j: int| 0 <= j < i ==> cs@[j] == h@[j],
        decreases hn - i,
    {
        if cs[i] != h.get_char(i) {
            assert(cwd@.subrange(0, hn as int)[i as int] != h@[i as int]);
            assert(cwd@.subrange(0, hn as int) != h@);
            return cwd.to_owned();
        }
        i = i + 1;
    }
    assert(cwd@.subrange(0, hn as int) =~= h@);
    if cs[hn] != '/' {
        return cwd.to_owned();
    }
    let mut r = String::new();
    push_char(&mut r, '~');
    let rest = string_from_char_range(&cs, hn);
    r.append(rest.as_str());
    r
}

/// The width of the time gutter.
pub const GUTTER_WIDTH: usize = 6;

/// The text right-aligned in at least `width` characters.
pub open spec fn padded_left(s: Seq<char>, width: nat) -> Seq<char> {
    if s.len() >= width {
        s
    } else {
        Seq::new((width - s.len()) as nat, |i: int| ' ') + s
    }
}

/// The gutter label: the text right-aligned in the gutter, then a space.
pub fn gutter_text(label: &str) -> (r: String)
    ensures
        r@ == padded_left(label@, GUTTER_WIDTH as nat) + seq![' '],
{
    let n = label.unicode_len();
    let mut r = String::new();
    let mut k = n;
    while k < GUTTER_WIDTH
        invariant
            n == label@.len(),
            n <= k <= GUTTER_WIDTH || (n > GUTTER_WIDTH && k == n),
            r@ == Seq::new((k - n) as nat, |i: int| ' '),
        decreases GUTTER_WIDTH - k,
    {
        push_char(&mut r, ' ');
        k = k + 1;
        assert(r@ =~= Seq::new((k - n) as nat, |i: int| ' '));
    }
    let ghost pad = r@;
    r.append(label);
    push_char(&mut r, ' ');
    if n >= GUTTER_WIDTH {
        assert(pad =~= Seq::<char>::empty());
    }
    assert(r@ =~= padded_left(label@, GUTTER_WIDTH as nat) + seq![' ']);
    r
}

/// How a duration is shown.
#[derive(Clone, Copy, Debug, PartialEq, Eq, Structural)]
pub enum DurationDisplay {
    /// Under a second: the milliseconds.
    Millis(i64),
    /// Under a minute: the seconds with one decimal, from the milliseconds.
    Seconds(i64),
    /// A minute or more: whole minutes and the remaining whole seconds.
    MinutesSeconds { minutes: i64, seconds: i64 },
}

/// How a duration of `ms` milliseconds is shown.
pub open spec fn duration_display_of(ms: i64) -> DurationDisplay {
    if ms < 1000 {
        DurationDisplay::Millis(ms)
    } else if ms < 60000 {
        DurationDisplay::Seconds(ms)
    } else {
        DurationDisplay::MinutesSeconds {
            minutes: (ms / 60000) as i64,
            seconds: ((ms % 60000) / 1000) as i64,
        }
    }
}

/// How a duration is shown: milliseconds under a second, seconds under a
/// minute, else minutes and seconds.
pub fn duration_display(ms: i64) -> (r: DurationDisplay)
    ensures
        r == duration_display_of(ms),
{
    if ms < 1000 {
        DurationDisplay::Millis(ms)
    } else if ms < 60000 {
        DurationDisplay::Seconds(ms)
    } else {
        DurationDisplay::MinutesSeconds { minutes: ms / 60000, seconds: (ms % 60000) / 1000 }
    }
}

/// The text of a duration shown in whole numbers: `<ms>ms` under a second,
/// `<minutes>m<seconds>s` from a minute on; none for the seconds shown
/// with a decimal in between.
pub open spec fn duration_text_of(ms: i64) -> Option<Seq<char>> {
    match duration_display_of(ms) {
        DurationDisplay::Millis(m) => Some(signed_decimal(m as int) + seq!['m', 's']),
        DurationDisplay::Seconds(_) => None,
        DurationDisplay::MinutesSeconds { minutes, seconds } => Some(
            signed_decimal(minutes as int) + seq!['m'] + signed_decimal(seconds as int) + seq!['s'],
        ),
    }
}

/// The text of a duration when it is shown in whole numbers (see
/// `duration_text_of`).
pub fn duration_text(ms: i64) -> (r: Option<String>)
    ensures
        match r {
            Some(t) => duration_text_of(ms) == Some(t@),
            None => duration_text_of(ms) is None,
        },
{
    match duration_display(ms) {
        DurationDisplay::Millis(m) => {
            let mut t = String::new();
            push_signed_decimal(&mut t, m);
            push_char(&mut t, 'm');
            push_char(&mut t, 's');
            assert(t@ =~= signed_decimal(m as int) + seq!['m', 's']);
            Some(t)
        },
        DurationDisplay::Seconds(_) => None,
        DurationDisplay::MinutesSeconds { minutes, seconds } => {
            let mut t = String::new();
            push_signed_decimal(&mut t, minutes);
            push_char(&mut t, 'm');
            push_signed_decimal(&mut t, seconds);
            push_char(&mut t, 's');
            assert(t@ =~= signed_decimal(minutes as int) + seq!['m'] + signed_decimal(seconds as int) + seq!['s']);
            Some(t)
        },
    }
}

/// A calendar day: year, month and day of month.
pub type Day = (i32, u32, u32);

/// Which heading a day is listed under.
#[derive(Clone, Copy, Debug, PartialEq, Eq, Structural)]
pub enum HeadingKind {
    Today,
    Yesterday,
    /// Another day of the current year: weekday, month and day.
    ThisYear,
    /// A day of another year: weekday, month, day and year.
    OtherYear,
}

/// The heading for a day, given today and the day before it (none when
/// today is the first representable day).
pub open spec fn heading_kind_of(date: Day, today: Day, yesterday: Option<Day>) -> HeadingKind {
    if date == today {
        HeadingKind::Today
    } else if yesterday == Some(date) {
        HeadingKind::Yesterday
    } else if date.0 == today.0 {
        HeadingKind::ThisYear
    } else {
        HeadingKind::OtherYear
    }
}

/// Which heading a day is listed under.
pub fn heading_kind(date: Day, today: Day, yesterday: Option<Day>) -> (r: HeadingKind)
    ensures
        r == heading_kind_of(date, today, yesterday),
{
    if date.0 == today.0 && date.1 == today.1 && date.2 == today.2 {
        HeadingKind::Today
    } else if match yesterday {
        Some(y) => y.0 == date.0 && y.1 == date.1 && y.2 == date.2,
        None => false,
    } {
        HeadingKind::Yesterday
    } else if date.0 == today.0 {
        HeadingKind::ThisYear
    } else {
        HeadingKind::OtherYear
    }
}

/// How a filter label is styled.
#[derive(Clone, Copy, Debug, PartialEq, Eq, Structural)]
pub enum LabelState {
    /// The filter is on.
    Active,
    /// The filter is off and can be turned on.
    Available,
    /// The filter is off and the current context cannot turn it on.
    Unavailable,
}

/// Whether a filter switch is on.
pub open spec fn toggle_active(t: FilterToggle, f: Filter) -> bool {
    match t {
        FilterToggle::Cwd => f.cwd is Some,
        FilterToggle::Repo => f.git_repo is Some,
        FilterToggle::Branch => f.git_branch is Some,
        FilterToggle::Success => f.only_success,
        FilterToggle::Fail => f.only_failure,
        FilterToggle::Deleted => f.only_deleted,
    }
}

/// Whether the context can turn a filter switch on.
pub open spec fn toggle_available(t: FilterToggle, ctx: FilterContext) -> bool {
    match t {
        FilterToggle::Repo => ctx.git_repo is Some,
        FilterToggle::Branch => ctx.git_branch is Some,
        _ => true,
    }
}

/// The state of a filter label.
pub open spec fn label_state_of(t: FilterToggle, f: Filter, ctx: FilterContext) -> LabelState {
    if toggle_active(t, f) {
        LabelState::Active
    } else if toggle_available(t, ctx) {
        LabelState::Available
    } else {
        LabelState::Unavailable
    }
}

/// The text of a filter label: padded with spaces when on, marked `n/a`
/// when unavailable.
pub open spec fn label_text_of(label: Seq<char>, state: LabelState) -> Seq<char> {
    match state {
        LabelState::Active => seq![' '] + label + seq![' '],
        LabelState::Available => label,
        LabelState::Unavailable => label + " n/a"@,
    }
}

/// The text and state of a filter switch's label in the footer.
pub fn filter_label(shortcut: &FilterShortcut, filter: &Filter, context: &FilterContext) -> (r: (
    String,
    LabelState,
))
    ensures
        r.1 == label_state_of(shortcut.toggle, *filter, *context),
        r.0@ == label_text_of(shortcut.label@, r.1),
{
    let active = match shortcut.toggle {
        FilterToggle::Cwd => filter.cwd.is_some(),
        FilterToggle::Repo => filter.git_repo.is_some(),
        FilterToggle::Branch => filter.git_branch.is_some(),
        FilterToggle::Success => filter.only_success,
        FilterToggle::Fail => filter.only_failure,
        FilterToggle::Deleted => filter.only_deleted,
    };
    let available = match shortcut.toggle {
        FilterToggle::Repo => context.git_repo.is_some(),
        FilterToggle::Branch => context.git_branch.is_some(),
        _ => true,
    };
    if active {
        let mut t = String::new();
        push_char(&mut t, ' ');
        t.append(shortcut.label);
        push_char(&mut t, ' ');
        (t, LabelState::Active)
    } else if available {
        (String::from_str(shortcut.label), LabelState::Available)
    } else {
        let mut t = String::from_str(shortcut.label);
        t.append(" n/a");
        (t, LabelState::Unavailable)
    }
}

/// The outcome column of a printed entry: a tick, a cross with the exit
/// code, or a question mark.
pub open spec fn plain_status_text(exit_code: Option<i32>) -> Seq<char> {
    match exit_code {
        Some(c) => if c == 0 {
            "✓"@
        } else {
            "✗"@ + signed_decimal(c as int)
        },
        None => "?"@,
    }
}

/// The duration column of a printed entry: a space, the milliseconds and
/// `ms`, or nothing.
pub open spec fn plain_duration_text(ms: Option<i64>) -> Seq<char> {
    match ms {
        Some(d) => seq![' '] + signed_decimal(d as int) + "ms"@,
        None => Seq::empty(),
    }
}

/// A printed history line: the start time, the outcome, the branch tag, the
/// duration and the command.
pub open spec fn entry_line_text(time: Seq<char>, e: Entry) -> Seq<char> {
    "  "@ + time + "  "@ + plain_status_text(e.exit_code) + branch_label(
        match e.git_branch {
            Some(b) => Some(b@),
            None => None,
        },
    ) + plain_duration_text(e.duration_ms) + "  "@ + e.command@
}

/// The printed history line for an entry that started at `time`.
pub fn entry_line(time: &str, e: &Entry) -> (r: String)
    ensures
        r@ == entry_line_text(time@, *e),
{
    let mut r = String::from_str("  ");
    r.append(time);
    r.append("  ");
    match e.exit_code {
        Some(c) => {
            if c == 0 {
                r.append("✓");
            } else {
                r.append("✗");
                push_signed_decimal(&mut r, c as i64);
            }
        },
        None => r.append("?"),
    }
    match &e.git_branch {
        Some(b) => {
            r.append(" [");
            r.append(b.as_str());
            r.append("]");
        },
        None => {},
    }
    match e.duration_ms {
        Some(d) => {
            push_char(&mut r, ' ');
            push_signed_decimal(&mut r, d);
            r.append("ms");
        },
        None => {},
    }
    r.append("  ");
    r.append(e.command.as_str());
    assert(r@ =~= entry_line_text(time@, *e));
    r
}

/// The printed listing, from entry `i` on, after the heading `last`: each
/// entry's heading is printed when it differs from the one before (with an
/// empty line before it unless it is the first), then the entry's line.
pub open spec fn listing_from(headings: Seq<Seq<char>>, lines: Seq<Seq<char>>, i: int, last: Seq<char>) -> Seq<
    Seq<char>,
>
    decreases headings.len() - i,
{
    if i < 0 || i >= headings.len() || i >= lines.len() {
        Seq::empty()
    } else if headings[i] != last {
        (if last.len() > 0 {
            seq![Seq::empty()]
        } else {
            Seq::empty()
        }) + seq![headings[i], lines[i]] + listing_from(headings, lines, i + 1, headings[i])
    } else {
        seq![lines[i]] + listing_from(headings, lines, i + 1, last)
    }
}

/// The printed listing of entries with their day headings and lines.
pub fn listing(headings: &Vec<String>, lines: &Vec<String>) -> (r: Vec<String>)
    requires
        headings@.len() == lines@.len(),
    ensures
        string_views(r@) == listing_from(string_views(headings@), string_views(lines@), 0, Seq::empty()),
{
    let ghost hs = string_views(headings@);
    let ghost ls = string_views(lines@);
    let mut out: Vec<String> = Vec::new();
    let mut last = String::new();
    let mut i: usize = 0;
    while i < headings.len()
        invariant
            hs == string_views(headings@),
            ls == string_views(lines@),
            headings@.len() == lines@.len(),
            i <= headings@.len(),
            listing_from(hs, ls, 0, Seq::empty()) == string_views(out@) + listing_from(
                hs,
                ls,
                i as int,
                last@,
            ),
        decreases headings@.len() - i,
    {
        let ghost before = string_views(out@);
        let ghost last0 = last@;
        assert(hs[i as int] == headings@[i as int]@);
        assert(ls[i as int] == lines@[i as int]@);
        if !str_eq(headings[i].as_str(), last.as_str()) {
            if last.unicode_len() > 0 {
                out.push(String::new());
            }
            out.push(headings[i].clone());
            out.push(lines[i].clone());
            last = headings[i].clone();
            assert(string_views(out@) =~= before + (if last0.len() > 0 {
                seq![Seq::<char>::empty()]
            } else {
                Seq::<Seq<char>>::empty()
            }) + seq![hs[i as int], ls[i as int]]);
        } else {
            out.push(lines[i].clone());
            assert(string_views(out@) =~= before + seq![ls[i as int]]);
        }
        i = i + 1;
    }
    assert(listing_from(hs, ls, i as int, last@) =~= Seq::<Seq<char>>::empty());
    out
}

/// Where a horizontal rule meets the gutter's vertical border.
#[derive(Clone, Copy, Debug, PartialEq, Eq, Structural)]
pub enum Junction {
    /// The border starts below the rule.
    Top,
}

/// The box-drawing character a rule has at the junction.
pub fn junction_glyph(j: Junction) -> (r: &'static str)
    ensures
        r@ == (match j {
            Junction::Top => "┬"@,
        }),
{
    match j {
        Junction::Top => "┬",
    }
}

} // verus!
