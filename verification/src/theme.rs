use vstd::prelude::*;

use crate::paths::{joined, path_join};
use crate::text::{
    opt_str_view,
    chars_of, is_whitespace, lines_of, push_char, split_lines, str_eq, string_from_char_range,
    string_from_chars, string_views, trim, trim_end_spec, trim_spec, whitespace,
};

verus! {

/// The parts of a text between the separators, as `str::split` gives them:
/// one part more than there are separators.
pub open spec fn split_on(s: Seq<char>, sep: char) -> Seq<Seq<char>>
    decreases s.len(),
{
    if s.len() == 0 {
        seq![Seq::empty()]
    } else {
        let rest = split_on(s.drop_last(), sep);
        if s.last() == sep {
            rest.push(Seq::empty())
        } else {
            rest.update(rest.len() - 1, rest.last().push(s.last()))
        }
    }
}

proof fn lemma_split_on_nonempty(s: Seq<char>, sep: char)
    ensures
        split_on(s, sep).len() >= 1,
    decreases s.len(),
{
    if s.len() > 0 {
        lemma_split_on_nonempty(s.drop_last(), sep);
    }
}

/// The parts of a text between the separators.
pub fn split_char(s: &str, sep: char) -> (r: Vec<String>)
    ensures
        string_views(r@) == split_on(s@, sep),
{
    let cs = chars_of(s);
    let n = cs.len();
    let mut parts: Vec<String> = Vec::new();
    let mut cur: Vec<char> = Vec::new();
    let mut i: usize = 0;
    while i < n
        invariant
            n == cs@.len(),
            cs@ == s@,
            i <= n,
            string_views(parts@).push(cur@) == split_on(cs@.subrange(0, i as int), sep),
        decreases n - i,
    {
        let ghost prefix = cs@.subrange(0, i as int);
        let ghost before = string_views(parts@).push(cur@);
        let c = cs[i];
        i = i + 1;
        assert(cs@.subrange(0, i as int).drop_last() =~= prefix);
        if c == sep {
            parts.push(string_from_chars(cur.as_slice()));
            cur = Vec::new();
            assert(string_views(parts@).push(cur@) =~= before.push(Seq::empty()));
        } else {
            let ghost old_cur = cur@;
            cur.push(c);
            assert(string_views(parts@).push(cur@) =~= before.update(before.len() - 1, old_cur.push(c)));
        }
    }
    parts.push(string_from_chars(cur.as_slice()));
    assert(cs@.subrange(0, n as int) =~= cs@);
    parts
}

/// A text's characters with the ASCII capitals made small.
pub open spec fn lower_char(c: char) -> char {
    if 'A' <= c && c <= 'Z' {
        ((c as u32) + 32) as char
    } else {
        c
    }
}

/// The text with its ASCII capitals made small, as `to_ascii_lowercase`.
pub open spec fn ascii_lower(s: Seq<char>) -> Seq<char> {
    s.map_values(|c: char| lower_char(c))
}

/// Whether `c`, made small, is `n`.
pub fn lower_char_is(c: char, n: char) -> (r: bool)
    ensures
        r == (lower_char(c) == n),
{
    if 'A' <= c && c <= 'Z' {
        let k = (c as u32) + 32;
        let r = k == (n as u32);
        assert(lower_char(c) as u32 == k);
        r
    } else {
        c == n
    }
}

/// Whether `h` holds `n` at position `i`.
pub open spec fn occurs_at(h: Seq<char>, n: Seq<char>, i: int) -> bool {
    0 <= i && i + n.len() <= h.len() && h.subrange(i, i + n.len()) == n
}

/// Whether `n` occurs in `h`.
pub open spec fn has_part(h: Seq<char>, n: Seq<char>) -> bool {
    exists|i: int| occurs_at(h, n, i)
}

/// Whether the text, with its ASCII capitals made small, holds `needle`.
pub fn lower_contains(s: &str, needle: &str) -> (r: bool)
    ensures
        r == has_part(ascii_lower(s@), needle@),
{
    let h = chars_of(s);
    let nd = chars_of(needle);
    let ghost hl = ascii_lower(s@);
    let hn = h.len();
    let nn = nd.len();
    if nn > hn {
        assert forall|i: int| !occurs_at(hl, needle@, i) by {}
        return false;
    }
    let mut i: usize = 0;
    while i <= hn - nn
        invariant
            h@ == s@,
            nd@ == needle@,
            hn == h@.len(),
            nn == nd@.len(),
            nn <= hn,
            hl == ascii_lower(s@),
            hl.len() == hn,
            forall|j: int| 0 <= j < i ==> !occurs_at(hl, needle@, j),
        decreases hn - nn + 1 - i,
    {
        let mut k: usize = 0;
        while k < nn && lower_char_is(h[i + k], nd[k])
            invariant
                h@ == s@,
                nd@ == needle@,
                hn == h@.len(),
                nn == nd@.len(),
                i + nn <= hn,
                hl == ascii_lower(s@),
                hl.len() == hn,
                k <= nn,
                forall|m: int| 0 <= m < k ==> hl[i + m] == nd@[m],
            decreases nn - k,
        {
            k = k + 1;
        }
        if k == nn {
            assert(hl.subrange(i as int, i + nn) =~= needle@);
            assert(occurs_at(hl, needle@, i as int));
            return true;
        }
        assert(!occurs_at(hl, needle@, i as int)) by {
            assert(hl[i + k] != nd@[k as int]);
            if hl.subrange(i as int, i + nn) == needle@ {
                assert(hl.subrange(i as int, i + nn)[k as int] == hl[i + k]);
            }
        }
        i = i + 1;
    }
    false
}

/// Whether the text, with its ASCII capitals made small, is `word`.
pub fn lower_equals(s: &str, word: &str) -> (r: bool)
    ensures
        r == (ascii_lower(s@) == word@),
{
    let n = s.unicode_len();
    if n != word.unicode_len() {
        return false;
    }
    let mut i: usize = 0;
    while i < n
        invariant
            n == s@.len(),
            n == word@.len(),
            i <= n,
            forall|j: int| 0 <= j < i ==> ascii_lower(s@)[j] == word@[j],
        decreases n - i,
    {
        if !lower_char_is(s.get_char(i), word.get_char(i)) {
            assert(ascii_lower(s@)[i as int] != word@[i as int]);
            return false;
        }
        i = i + 1;
    }
    assert(ascii_lower(s@) =~= word@);
    true
}

/// The value of a string of decimal digits.
pub open spec fn digits_value(d: Seq<char>) -> nat
    decreases d.len(),
{
    if d.len() == 0 {
        0
    } else {
        digits_value(d.drop_last()) * 10 + ((d.last() as nat) - ('0' as nat)) as nat
    }
}

/// Every character is an ASCII digit.
pub open spec fn all_digits(d: Seq<char>) -> bool {
    forall|i: int| 0 <= i < d.len() ==> '0' <= #[trigger] d[i] && d[i] <= '9'
}

/// The digits of an unsigned number: the text without one leading `+`.
pub open spec fn unsigned_digits(s: Seq<char>) -> Seq<char> {
    if s.len() > 0 && s[0] == '+' {
        s.drop_first()
    } else {
        s
    }
}

/// The unsigned number a text spells, as `str::parse` reads it for an
/// unsigned type whose largest value is `max`: an optional `+`, then one or
/// more decimal digits, for a value no larger than `max`.
pub open spec fn parsed_unsigned(s: Seq<char>, max: nat) -> Option<nat> {
    let d = unsigned_digits(s);
    if d.len() > 0 && all_digits(d) && digits_value(d) <= max {
        Some(digits_value(d))
    } else {
        None
    }
}

proof fn lemma_digits_value_grows(d: Seq<char>, k: int)
    requires
        0 <= k <= d.len(),
        all_digits(d),
    ensures
        digits_value(d.subrange(0, k)) <= digits_value(d),
    decreases d.len() - k,
{
    if k < d.len() {
        lemma_digits_value_grows(d, k + 1);
        let p = d.subrange(0, k + 1);
        assert(p.drop_last() =~= d.subrange(0, k));
        assert('0' <= p.last());
    } else {
        assert(d.subrange(0, k) =~= d);
    }
}

/// The unsigned number a text spells, if it is no larger than `max`.
pub fn parse_unsigned(s: &str, max: u32) -> (r: Option<u32>)
    ensures
        match parsed_unsigned(s@, max as nat) {
            Some(v) => r == Some(v as u32),
            None => r is None,
        },
{
    let cs = chars_of(s);
    let n = cs.len();
    let start: usize = if n > 0 && cs[0] == '+' {
        1
    } else {
        0
    };
    let ghost d = unsigned_digits(s@);
    assert(d =~= cs@.subrange(start as int, n as int));
    if start == n {
        return None;
    }
    let mut v: u64 = 0;
    let mut i: usize = start;
    while i < n
        invariant
            cs@ == s@,
            n == cs@.len(),
            start <= i <= n,
            start < n,
            d == unsigned_digits(s@),
            d == cs@.subrange(start as int, n as int),
            all_digits(d.subrange(0, i - start)),
            v == digits_value(d.subrange(0, i - start)),
            v <= max,
        decreases n - i,
    {
        let c = cs[i];
        if c < '0' || c > '9' {
            assert(d[i - start] == c);
            return None;
        }
        let digit = (c as u32) - ('0' as u32);
        let next = v * 10 + (digit as u64);
        let ghost p = d.subrange(0, i + 1 - start);
        assert(p.drop_last() =~= d.subrange(0, i - start));
        assert(p.last() == c);
        assert(all_digits(p));
        assert(next == digits_value(p));
        if next > max as u64 {
            proof {
                if all_digits(d) {
                    lemma_digits_value_grows(d, i + 1 - start);
                }
            }
            return None;
        }
        v = next;
        i = i + 1;
    }
    assert(d.subrange(0, n - start) =~= d);
    Some(v as u32)
}

/// The last of the parts between the separators.
pub open spec fn last_part(s: Seq<char>, sep: char) -> Seq<char> {
    split_on(s, sep).last()
}

/// The text with ASCII capitals made small, after trimming.
pub open spec fn trimmed_lower(s: Seq<char>) -> Seq<char> {
    ascii_lower(trim_spec(s))
}

/// The background colour `$COLORFGBG` gives, read as dark or light: its last
/// `;`-separated field is a colour number, and numbers below 8 are dark.
pub open spec fn colorfgbg_dark(v: Seq<char>) -> Option<bool> {
    match parsed_unsigned(trim_spec(last_part(v, ';')), 255) {
        Some(n) => Some(n < 8),
        None => None,
    }
}

/// What `$TERM_BACKGROUND` says: `dark` or `light`, in any case.
pub open spec fn term_background_dark(v: Seq<char>) -> Option<bool> {
    if trimmed_lower(v) == "dark"@ {
        Some(true)
    } else if trimmed_lower(v) == "light"@ {
        Some(false)
    } else {
        None
    }
}

/// Whether the terminal's environment says it is dark: `$COLORFGBG` first,
/// then `$TERM_BACKGROUND`.
pub open spec fn terminal_dark(colorfgbg: Option<Seq<char>>, term_background: Option<Seq<char>>) -> Option<bool> {
    let first = match colorfgbg {
        Some(v) => colorfgbg_dark(v),
        None => None,
    };
    if first is Some {
        first
    } else {
        match term_background {
            Some(v) => term_background_dark(v),
            None => None,
        }
    }
}

/// Reads `$COLORFGBG`'s background field.
pub fn parse_colorfgbg(v: &str) -> (r: Option<bool>)
    ensures
        r == colorfgbg_dark(v@),
{
    let parts = split_char(v, ';');
    proof {
        lemma_split_on_nonempty(v@, ';');
    }
    let last = &parts[parts.len() - 1];
    let t = trim(last.as_str());
    match parse_unsigned(t.as_str(), 255) {
        Some(n) => Some(n < 8),
        None => None,
    }
}

/// Reads `$TERM_BACKGROUND`.
pub fn parse_term_background(v: &str) -> (r: Option<bool>)
    ensures
        r == term_background_dark(v@),
{
    let t = trim(v);
    if lower_equals(t.as_str(), "dark") {
        Some(true)
    } else if lower_equals(t.as_str(), "light") {
        Some(false)
    } else {
        None
    }
}

/// Whether the terminal is dark, from the values of `$COLORFGBG` and
/// `$TERM_BACKGROUND`.
pub fn detect_terminal_dark_mode(colorfgbg: Option<&str>, term_background: Option<&str>) -> (r: Option<bool>)
    ensures
        r == terminal_dark(opt_str_view(colorfgbg), opt_str_view(term_background)),
{
    if let Some(v) = colorfgbg {
        if let Some(d) = parse_colorfgbg(v) {
            return Some(d);
        }
    }
    match term_background {
        Some(v) => parse_term_background(v),
        None => None,
    }
}

/// The trimmed output of a command, or nothing when it printed only
/// whitespace.
pub fn command_output_text(stdout: &str) -> (r: Option<String>)
    ensures
        match r {
            Some(t) => t@ == trim_spec(stdout@) && t@.len() > 0,
            None => trim_spec(stdout@).len() == 0,
        },
{
    let t = trim(stdout);
    if t.unicode_len() == 0 {
        None
    } else {
        Some(t)
    }
}

/// The text without leading and trailing `'`.
pub open spec fn strip_quotes(s: Seq<char>) -> Seq<char>
    decreases s.len(),
{
    if s.len() > 0 && s[0] == '\'' {
        strip_quotes(s.drop_first())
    } else if s.len() > 0 && s.last() == '\'' {
        strip_quotes(s.drop_last())
    } else {
        s
    }
}

/// The text without leading and trailing `'`, as `trim_matches('\'')`.
pub fn trim_quotes(s: &str) -> (r: String)
    ensures
        r@ == strip_quotes(s@),
{
    let cs = chars_of(s);
    let mut a: usize = 0;
    let mut b: usize = cs.len();
    assert(cs@.subrange(0, b as int) =~= cs@);
    while a < b && (cs[a] == '\'' || cs[b - 1] == '\'')
        invariant
            a <= b <= cs@.len(),
            strip_quotes(s@) == strip_quotes(cs@.subrange(a as int, b as int)),
            cs@ == s@,
        decreases b - a,
    {
        let ghost t = cs@.subrange(a as int, b as int);
        if cs[a] == '\'' {
            assert(t.drop_first() =~= cs@.subrange(a + 1, b as int));
            a = a + 1;
        } else {
            assert(t.drop_last() =~= cs@.subrange(a as int, b - 1));
            b = b - 1;
        }
    }
    let mut out: Vec<char> = Vec::new();
    let mut i = a;
    while i < b
        invariant
            a <= i <= b <= cs@.len(),
            out@ == cs@.subrange(a as int, i as int),
        decreases b - i,
    {
        out.push(cs[i]);
        i = i + 1;
        assert(out@ =~= cs@.subrange(a as int, i as int));
    }
    string_from_chars(out.as_slice())
}

/// What a GNOME `color-scheme` value says: `prefer-dark` or `prefer-light`.
pub open spec fn color_scheme_dark(v: Seq<char>) -> Option<bool> {
    let t = ascii_lower(strip_quotes(v));
    if has_part(t, "prefer-dark"@) {
        Some(true)
    } else if has_part(t, "prefer-light"@) {
        Some(false)
    } else {
        None
    }
}

/// What a theme name says: whether it holds `dark` or `light`.
pub open spec fn theme_name_dark(v: Seq<char>) -> Option<bool> {
    if has_part(v, "dark"@) {
        Some(true)
    } else if has_part(v, "light"@) {
        Some(false)
    } else {
        None
    }
}

/// Whether GNOME is dark: its `color-scheme` first, then its GTK theme name.
pub open spec fn gnome_dark(color_scheme: Option<Seq<char>>, gtk_theme: Option<Seq<char>>) -> Option<bool> {
    let first = match color_scheme {
        Some(v) => color_scheme_dark(v),
        None => None,
    };
    if first is Some {
        first
    } else {
        match gtk_theme {
            Some(v) => theme_name_dark(ascii_lower(strip_quotes(v))),
            None => None,
        }
    }
}

/// Whether GNOME is dark, from the outputs of `gsettings get
/// org.gnome.desktop.interface color-scheme` and `... gtk-theme`.
pub fn detect_gnome_dark_mode(color_scheme: Option<&str>, gtk_theme: Option<&str>) -> (r: Option<bool>)
    ensures
        r == gnome_dark(opt_str_view(color_scheme), opt_str_view(gtk_theme)),
{
    if let Some(v) = color_scheme {
        let t = trim_quotes(v);
        if lower_contains(t.as_str(), "prefer-dark") {
            return Some(true);
        }
        if lower_contains(t.as_str(), "prefer-light") {
            return Some(false);
        }
    }
    match gtk_theme {
        Some(v) => {
            let t = trim_quotes(v);
            if lower_contains(t.as_str(), "dark") {
                Some(true)
            } else if lower_contains(t.as_str(), "light") {
                Some(false)
            } else {
                None
            }
        },
        None => None,
    }
}

/// The first reader's answer that says dark or light.
pub open spec fn first_scheme_answer(outputs: Seq<Option<Seq<char>>>) -> Option<bool>
    decreases outputs.len(),
{
    if outputs.len() == 0 {
        None
    } else {
        let here = match outputs[0] {
            Some(v) => theme_name_dark(ascii_lower(v)),
            None => None,
        };
        if here is Some {
            here
        } else {
            first_scheme_answer(outputs.drop_first())
        }
    }
}

/// The views of a list of optional strings.
pub open spec fn opt_string_views(v: Seq<Option<String>>) -> Seq<Option<Seq<char>>> {
    v.map_values(|o: Option<String>| match o {
        Some(s) => Some(s@),
        None => None,
    })
}

/// What KDE's colour scheme says: the first of the `kreadconfig` outputs
/// (tried in order) whose scheme name holds `dark` or `light`, else the
/// answer read from `kdeglobals` (given by the caller, who computes it from
/// the window background colour).
pub fn detect_kde_dark_mode(reader_outputs: &Vec<Option<String>>, from_config: Option<bool>) -> (r: Option<bool>)
    ensures
        r == match first_scheme_answer(opt_string_views(reader_outputs@)) {
            Some(d) => Some(d),
            None => from_config,
        },
{
    let ghost all = opt_string_views(reader_outputs@);
    let mut i: usize = 0;
    assert(all.subrange(0, all.len() as int) =~= all);
    while i < reader_outputs.len()
        invariant
            all == opt_string_views(reader_outputs@),
            i <= reader_outputs@.len(),
            first_scheme_answer(all) == first_scheme_answer(all.subrange(i as int, all.len() as int)),
        decreases reader_outputs@.len() - i,
    {
        let ghost rest = all.subrange(i as int, all.len() as int);
        assert(rest.drop_first() =~= all.subrange(i + 1, all.len() as int));
        if let Some(v) = &reader_outputs[i] {
            assert(rest[0] == Some(v@));
            if lower_contains(v.as_str(), "dark") {
                return Some(true);
            }
            if lower_contains(v.as_str(), "light") {
                return Some(false);
            }
        }
        i = i + 1;
    }
    assert(all.subrange(all.len() as int, all.len() as int) =~= Seq::<Option<Seq<char>>>::empty());
    from_config
}

/// The text after a prefix, when it starts with it.
pub open spec fn after_prefix(s: Seq<char>, p: Seq<char>) -> Option<Seq<char>> {
    if p.len() <= s.len() && s.subrange(0, p.len() as int) == p {
        Some(s.subrange(p.len() as int, s.len() as int))
    } else {
        None
    }
}

/// A section header line: `[` ... `]`.
pub open spec fn is_section_header(l: Seq<char>) -> bool {
    l.len() > 0 && l[0] == '[' && l.last() == ']'
}

/// The `BackgroundNormal` value of the first such key inside a
/// `[Colors:Window]` section, reading the trimmed lines from `in_window`'s
/// state.
pub open spec fn window_background_from(lines: Seq<Seq<char>>, in_window: bool) -> Option<Seq<char>>
    decreases lines.len(),
{
    if lines.len() == 0 {
        None
    } else {
        let l = trim_spec(lines[0]);
        let rest = lines.drop_first();
        if is_section_header(l) {
            window_background_from(rest, l == "[Colors:Window]"@)
        } else if in_window && after_prefix(l, "BackgroundNormal="@) is Some {
            after_prefix(l, "BackgroundNormal="@)
        } else {
            window_background_from(rest, in_window)
        }
    }
}

/// The text after a prefix, when it starts with it.
pub fn strip_prefix(s: &str, p: &str) -> (r: Option<String>)
    ensures
        match after_prefix(s@, p@) {
            Some(t) => r matches Some(x) && x@ == t,
            None => r is None,
        },
{
    let cs = chars_of(s);
    let ps = chars_of(p);
    if ps.len() > cs.len() {
        return None;
    }
    let mut i: usize = 0;
    while i < ps.len()
        invariant
            cs@ == s@,
            ps@ == p@,
            ps@.len() <= cs@.len(),
            i <= ps@.len(),
            forall|j: int| 0 <= j < i ==> cs@[j] == ps@[j],
        decreases ps@.len() - i,
    {
        if cs[i] != ps[i] {
            assert(cs@.subrange(0, ps@.len() as int)[i as int] != p@[i as int]);
            return None;
        }
        i = i + 1;
    }
    assert(cs@.subrange(0, ps@.len() as int) =~= p@);
    Some(string_from_char_range(&cs, ps.len()))
}

/// The window background colour set in a `kdeglobals` file, as written.
pub fn kde_window_background(contents: &str) -> (r: Option<String>)
    ensures
        match window_background_from(lines_of(contents@), false) {
            Some(v) => r matches Some(x) && x@ == v,
            None => r is None,
        },
{
    let lines = split_lines(contents);
    let ghost ls = string_views(lines@);
    let mut in_window = false;
    let mut i: usize = 0;
    assert(ls.subrange(0, ls.len() as int) =~= ls);
    while i < lines.len()
        invariant
            ls == string_views(lines@),
            ls == lines_of(contents@),
            i <= ls.len(),
            window_background_from(ls, false) == window_background_from(
                ls.subrange(i as int, ls.len() as int),
                in_window,
            ),
        decreases ls.len() - i,
    {
        let ghost rest = ls.subrange(i as int, ls.len() as int);
        assert(rest[0] == lines@[i as int]@);
        assert(rest.drop_first() =~= ls.subrange(i + 1, ls.len() as int));
        let line = trim(lines[i].as_str());
        let n = line.unicode_len();
        if n > 0 && line.get_char(0) == '[' && line.get_char(n - 1) == ']' {
            in_window = str_eq(line.as_str(), "[Colors:Window]");
        } else if in_window {
            if let Some(v) = strip_prefix(line.as_str(), "BackgroundNormal=") {
                return Some(v);
            }
        }
        i = i + 1;
    }
    assert(ls.subrange(ls.len() as int, ls.len() as int) =~= Seq::<Seq<char>>::empty());
    None
}

/// The red, green and blue components of a `r,g,b` colour: the first three
/// comma-separated fields, trimmed, as numbers up to 65535.
pub open spec fn rgb_of(v: Seq<char>) -> Option<(nat, nat, nat)> {
    let parts = split_on(v, ',');
    if parts.len() >= 3 && parsed_unsigned(trim_spec(parts[0]), 65535) is Some && parsed_unsigned(
        trim_spec(parts[1]),
        65535,
    ) is Some && parsed_unsigned(trim_spec(parts[2]), 65535) is Some {
        Some(
            (
                parsed_unsigned(trim_spec(parts[0]), 65535).unwrap(),
                parsed_unsigned(trim_spec(parts[1]), 65535).unwrap(),
                parsed_unsigned(trim_spec(parts[2]), 65535).unwrap(),
            ),
        )
    } else {
        None
    }
}

/// Reads a `r,g,b` colour.
pub fn parse_rgb(v: &str) -> (r: Option<(u16, u16, u16)>)
    ensures
        match rgb_of(v@) {
            Some(c) => r == Some((c.0 as u16, c.1 as u16, c.2 as u16)),
            None => r is None,
        },
{
    let parts = split_char(v, ',');
    if parts.len() < 3 {
        return None;
    }
    let r0 = trim(parts[0].as_str());
    let r1 = trim(parts[1].as_str());
    let r2 = trim(parts[2].as_str());
    let red = match parse_unsigned(r0.as_str(), 65535) {
        Some(x) => x,
        None => return None,
    };
    let green = match parse_unsigned(r1.as_str(), 65535) {
        Some(x) => x,
        None => return None,
    };
    let blue = match parse_unsigned(r2.as_str(), 65535) {
        Some(x) => x,
        None => return None,
    };
    Some((red as u16, green as u16, blue as u16))
}

/// The last whitespace-separated word of a text, if it has one.
pub open spec fn last_word(s: Seq<char>) -> Option<Seq<char>> {
    let t = trim_end_spec(s);
    if t.len() == 0 {
        None
    } else {
        Some(t.subrange(t.len() - trailing_word_len(t), t.len() as int))
    }
}

/// The number of non-whitespace characters the text ends with.
pub open spec fn trailing_word_len(s: Seq<char>) -> nat
    decreases s.len(),
{
    if s.len() > 0 && !whitespace(s.last()) {
        1 + trailing_word_len(s.drop_last())
    } else {
        0
    }
}

proof fn lemma_trailing_word_len_bound(s: Seq<char>)
    ensures
        trailing_word_len(s) <= s.len(),
    decreases s.len(),
{
    if s.len() > 0 && !whitespace(s.last()) {
        lemma_trailing_word_len_bound(s.drop_last());
    }
}

/// The first line that holds `needle`, searching from line `k`.
pub open spec fn first_line_with(lines: Seq<Seq<char>>, needle: Seq<char>, k: int) -> Option<Seq<char>>
    decreases lines.len() - k,
{
    if k < 0 || k >= lines.len() {
        None
    } else if has_part(lines[k], needle) {
        Some(lines[k])
    } else {
        first_line_with(lines, needle, k + 1)
    }
}

/// What the output of `reg query ... /v AppsUseLightTheme` says: the last
/// word of the first line naming the value is `0x0` or `0` for dark, `0x1`
/// or `1` for light.
pub open spec fn apps_use_light_theme_dark(output: Seq<char>) -> Option<bool> {
    match first_line_with(lines_of(output), "AppsUseLightTheme"@, 0) {
        None => None,
        Some(l) => match last_word(l) {
            None => None,
            Some(w) => if w == "0x0"@ || w == "0"@ {
                Some(true)
            } else if w == "0x1"@ || w == "1"@ {
                Some(false)
            } else {
                None
            },
        },
    }
}

/// Whether a text holds `needle`.
pub fn contains_str(s: &str, needle: &str) -> (r: bool)
    ensures
        r == has_part(s@, needle@),
{
    let h = chars_of(s);
    let nd = chars_of(needle);
    let hn = h.len();
    let nn = nd.len();
    if nn > hn {
        assert forall|i: int| !occurs_at(s@, needle@, i) by {}
        return false;
    }
    let mut i: usize = 0;
    while i <= hn - nn
        invariant
            h@ == s@,
            nd@ == needle@,
            hn == h@.len(),
            nn == nd@.len(),
            nn <= hn,
            forall|j: int| 0 <= j < i ==> !occurs_at(s@, needle@, j),
        decreases hn - nn + 1 - i,
    {
        let mut k: usize = 0;
        while k < nn && h[i + k] == nd[k]
            invariant
                h@ == s@,
                nd@ == needle@,
                hn == h@.len(),
                nn == nd@.len(),
                i + nn <= hn,
                k <= nn,
                forall|m: int| 0 <= m < k ==> h@[i + m] == nd@[m],
            decreases nn - k,
        {
            k = k + 1;
        }
        if k == nn {
            assert(s@.subrange(i as int, i + nn) =~= needle@);
            assert(occurs_at(s@, needle@, i as int));
            return true;
        }
        assert(!occurs_at(s@, needle@, i as int)) by {
            assert(h@[i + k] != nd@[k as int]);
            if s@.subrange(i as int, i + nn) == needle@ {
                assert(s@.subrange(i as int, i + nn)[k as int] == h@[i + k]);
            }
        }
        i = i + 1;
    }
    false
}

/// The last whitespace-separated word of a text.
pub fn last_word_of(s: &str) -> (r: Option<String>)
    ensures
        match last_word(s@) {
            Some(w) => r matches Some(x) && x@ == w,
            None => r is None,
        },
{
    let cs = chars_of(s);
    let end = crate::text::trimmed_end_len(&cs);
    if end == 0 {
        return None;
    }
    let ghost t = cs@.subrange(0, end as int);
    assert(trim_end_spec(s@) =~= t);
    let mut start = end;
    proof {
        lemma_trailing_word_len_bound(t);
        assert(t.subrange(0, start as int) =~= t);
    }
    while start > 0 && !is_whitespace(cs[start - 1])
        invariant
            start <= end <= cs@.len(),
            t == cs@.subrange(0, end as int),
            trailing_word_len(t) == (end - start) + trailing_word_len(t.subrange(0, start as int)),
        decreases start,
    {
        assert(t.subrange(0, start as int).drop_last() =~= t.subrange(0, start - 1));
        start = start - 1;
    }
    assert(trailing_word_len(t.subrange(0, start as int)) == 0);
    let mut out: Vec<char> = Vec::new();
    let mut i = start;
    while i < end
        invariant
            start <= i <= end <= cs@.len(),
            out@ == cs@.subrange(start as int, i as int),
        decreases end - i,
    {
        out.push(cs[i]);
        i = i + 1;
        assert(out@ =~= cs@.subrange(start as int, i as int));
    }
    assert(out@ =~= t.subrange(t.len() - trailing_word_len(t), t.len() as int));
    Some(string_from_chars(out.as_slice()))
}

/// Reads the output of `reg query ... /v AppsUseLightTheme`: dark when the
/// value is 0, light when it is 1.
pub fn parse_windows_apps_use_light_theme(output: &str) -> (r: Option<bool>)
    ensures
        r == apps_use_light_theme_dark(output@),
{
    let lines = split_lines(output);
    let ghost ls = string_views(lines@);
    let mut i: usize = 0;
    while i < lines.len()
        invariant
            ls == string_views(lines@),
            ls == lines_of(output@),
            i <= ls.len(),
            first_line_with(ls, "AppsUseLightTheme"@, 0) == first_line_with(
                ls,
                "AppsUseLightTheme"@,
                i as int,
            ),
        decreases ls.len() - i,
    {
        assert(ls[i as int] == lines@[i as int]@);
        if contains_str(lines[i].as_str(), "AppsUseLightTheme") {
            let w = match last_word_of(lines[i].as_str()) {
                Some(w) => w,
                None => return None,
            };
            if str_eq(w.as_str(), "0x0") || str_eq(w.as_str(), "0") {
                return Some(true);
            }
            if str_eq(w.as_str(), "0x1") || str_eq(w.as_str(), "1") {
                return Some(false);
            }
            return None;
        }
        i = i + 1;
    }
    None
}

/// Whether macOS is dark, from the output of `defaults read -g
/// AppleInterfaceStyle`: dark when it says `Dark` in any case; the key is
/// absent (no output) in light mode.
pub fn macos_dark_mode(interface_style: Option<&str>) -> (r: bool)
    ensures
        r == match interface_style {
            Some(v) => ascii_lower(v@) == "dark"@,
            None => false,
        },
{
    match interface_style {
        Some(v) => lower_equals(v, "dark"),
        None => false,
    }
}

/// Where KDE keeps `kdeglobals`: under `$XDG_CONFIG_HOME`, else under
/// `~/.config`.
pub fn kdeglobals_path(xdg_config_home: Option<&str>, home: Option<&str>) -> (r: Option<String>)
    ensures
        match xdg_config_home {
            Some(x) => r matches Some(p) && p@ == joined(x@, "kdeglobals"@),
            None => match home {
                Some(h) => r matches Some(p) && p@ == joined(joined(h@, ".config"@), "kdeglobals"@),
                None => r is None,
            },
        },
{
    match xdg_config_home {
        Some(x) => Some(path_join(x, "kdeglobals")),
        None => match home {
            Some(h) => {
                let c = path_join(h, ".config");
                Some(path_join(c.as_str(), "kdeglobals"))
            },
            None => None,
        },
    }
}

/// Whether the interface is dark: what the terminal says, else what the
/// desktop says, else dark.
pub fn detect_dark_mode(terminal: Option<bool>, platform: Option<bool>) -> (r: bool)
    ensures
        r == match terminal {
            Some(d) => d,
            None => match platform {
                Some(d) => d,
                None => true,
            },
        },
{
    match terminal {
        Some(d) => d,
        None => match platform {
            Some(d) => d,
            None => true,
        },
    }
}

} // verus!
