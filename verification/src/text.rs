use vstd::prelude::*;

verus! {

/// Appends one character to a string.
///
/// Trusted: `String::push` appends the character at the end of the string.
#[verifier::external_body]
pub fn push_char(s: &mut String, c: char)
    ensures
        final(s)@ == old(s)@.push(c),
{
    s.push(c);
}

/// Removes and returns the last character of a string, if any.
///
/// Trusted: `String::pop` removes the last character and returns it, or
/// returns None and leaves the string unchanged when it is empty.
#[verifier::external_body]
pub fn pop_char(s: &mut String) -> (r: Option<char>)
    ensures
        old(s)@.len() == 0 ==> r.is_none() && final(s)@ == old(s)@,
        old(s)@.len() > 0 ==> r == Some(old(s)@.last()) && final(s)@ == old(s)@.drop_last(),
{
    s.pop()
}

/// The characters of a string, in order.
pub fn chars_of(s: &str) -> (v: Vec<char>)
    ensures
        v@ == s@,
{
    let n = s.unicode_len();
    let mut v: Vec<char> = Vec::new();
    let mut i: usize = 0;
    while i < n
        invariant
            n == s@.len(),
            i <= n,
            v@ == s@.subrange(0, i as int),
        decreases n - i,
    {
        let c = s.get_char(i);
        v.push(c);
        i = i + 1;
        assert(v@ =~= s@.subrange(0, i as int));
    }
    assert(v@ =~= s@);
    v
}

/// The string made of the given characters.
pub fn string_from_chars(cs: &[char]) -> (s: String)
    ensures
        s@ == cs@,
{
    let mut s = String::new();
    let mut i: usize = 0;
    while i < cs.len()
        invariant
            i <= cs@.len(),
            s@ == cs@.subrange(0, i as int),
        decreases cs@.len() - i,
    {
        push_char(&mut s, cs[i]);
        i = i + 1;
        assert(s@ =~= cs@.subrange(0, i as int));
    }
    assert(s@ =~= cs@);
    s
}

/// The string made of the characters from position `from` on.
pub fn string_from_char_range(cs: &Vec<char>, from: usize) -> (s: String)
    requires
        from <= cs@.len(),
    ensures
        s@ == cs@.subrange(from as int, cs@.len() as int),
{
    let mut s = String::new();
    let mut i: usize = from;
    while i < cs.len()
        invariant
            from <= i <= cs@.len(),
            s@ == cs@.subrange(from as int, i as int),
        decreases cs@.len() - i,
    {
        push_char(&mut s, cs[i]);
        i = i + 1;
        assert(s@ =~= cs@.subrange(from as int, i as int));
    }
    s
}

/// The character sequences of a list of strings.
pub open spec fn string_views(v: Seq<String>) -> Seq<Seq<char>> {
    v.map_values(|s: String| s@)
}

/// The text of an optional string slice.
pub open spec fn opt_str_view(o: Option<&str>) -> Option<Seq<char>> {
    match o {
        Some(s) => Some(s@),
        None => None,
    }
}

/// The text of an optional string.
pub open spec fn opt_string_view(o: Option<String>) -> Option<Seq<char>> {
    match o {
        Some(s) => Some(s@),
        None => None,
    }
}

/// The text padded with spaces on the right to at least `width` characters.
pub open spec fn padded_right(s: Seq<char>, width: nat) -> Seq<char> {
    if s.len() >= width {
        s
    } else {
        s + Seq::new((width - s.len()) as nat, |i: int| ' ')
    }
}

/// The decimal digit character for a value below ten.
pub open spec fn digit_char(d: nat) -> char {
    if d == 0 { '0' }
    else if d == 1 { '1' }
    else if d == 2 { '2' }
    else if d == 3 { '3' }
    else if d == 4 { '4' }
    else if d == 5 { '5' }
    else if d == 6 { '6' }
    else if d == 7 { '7' }
    else if d == 8 { '8' }
    else { '9' }
}

/// The decimal notation of a natural number, without leading zeros.
pub open spec fn decimal(n: nat) -> Seq<char>
    decreases n,
{
    if n < 10 {
        seq![digit_char(n)]
    } else {
        decimal(n / 10).push(digit_char(n % 10))
    }
}

/// The decimal notation of an integer, with a leading '-' when negative.
pub open spec fn signed_decimal(n: int) -> Seq<char> {
    if n < 0 {
        seq!['-'] + decimal((-n) as nat)
    } else {
        decimal(n as nat)
    }
}

fn digit(d: u64) -> (c: char)
    requires
        d < 10,
    ensures
        c == digit_char(d as nat),
{
    if d == 0 { '0' }
    else if d == 1 { '1' }
    else if d == 2 { '2' }
    else if d == 3 { '3' }
    else if d == 4 { '4' }
    else if d == 5 { '5' }
    else if d == 6 { '6' }
    else if d == 7 { '7' }
    else if d == 8 { '8' }
    else { '9' }
}

/// Appends the decimal notation of `n`.
pub fn push_decimal(s: &mut String, n: u64)
    ensures
        final(s)@ == old(s)@ + decimal(n as nat),
    decreases n,
{
    if n >= 10 {
        push_decimal(s, n / 10);
    }
    push_char(s, digit(n % 10));
    assert(final(s)@ =~= old(s)@ + decimal(n as nat));
}

/// Appends the decimal notation of a signed number.
pub fn push_signed_decimal(s: &mut String, n: i64)
    ensures
        final(s)@ == old(s)@ + signed_decimal(n as int),
{
    if n < 0 {
        push_char(s, '-');
        let magnitude: u64 = if n == i64::MIN {
            9223372036854775808u64
        } else {
            (0 - n) as u64
        };
        push_decimal(s, magnitude);
        assert(final(s)@ =~= old(s)@ + signed_decimal(n as int));
    } else {
        push_decimal(s, n as u64);
    }
}

/// Elements joined with a separator between consecutive ones.
pub open spec fn join(parts: Seq<Seq<char>>, sep: Seq<char>) -> Seq<char>
    decreases parts.len(),
{
    if parts.len() == 0 {
        Seq::empty()
    } else if parts.len() == 1 {
        parts[0]
    } else {
        join(parts.drop_last(), sep) + sep + parts.last()
    }
}

/// The number of occurrences of a character.
pub open spec fn count_char(s: Seq<char>, c: char) -> nat
    decreases s.len(),
{
    if s.len() == 0 {
        0
    } else {
        count_char(s.drop_last(), c) + if s.last() == c { 1nat } else { 0nat }
    }
}

/// Counting a character over two texts put together adds up.
pub proof fn lemma_count_concat(a: Seq<char>, b: Seq<char>, c: char)
    ensures
        count_char(a + b, c) == count_char(a, c) + count_char(b, c),
    decreases b.len(),
{
    if b.len() == 0 {
        assert(a + b =~= a);
    } else {
        lemma_count_concat(a, b.drop_last(), c);
        assert((a + b).drop_last() =~= a + b.drop_last());
    }
}

/// A text without the character holds none of it.
pub proof fn lemma_count_absent(s: Seq<char>, c: char)
    requires
        forall|i: int| 0 <= i < s.len() ==> s[i] != c,
    ensures
        count_char(s, c) == 0,
    decreases s.len(),
{
    if s.len() > 0 {
        lemma_count_absent(s.drop_last(), c);
    }
}

/// A text whose only occurrence of the character is its last one holds one.
pub proof fn lemma_count_last_only(s: Seq<char>, c: char)
    requires
        s.len() > 0,
        s.last() == c,
        forall|i: int| 0 <= i < s.len() - 1 ==> s[i] != c,
    ensures
        count_char(s, c) == 1,
{
    lemma_count_absent(s.drop_last(), c);
}

/// Decimal digits hold no character but digits.
pub proof fn lemma_count_decimal(n: nat, c: char)
    requires
        !('0' <= c && c <= '9'),
    ensures
        count_char(decimal(n), c) == 0,
    decreases n,
{
    if n < 10 {
        assert(decimal(n).drop_last() =~= Seq::<char>::empty());
        assert(count_char(Seq::<char>::empty(), c) == 0);
    } else {
        lemma_count_decimal(n / 10, c);
        assert(decimal(n).drop_last() =~= decimal(n / 10));
        assert(decimal(n).last() == digit_char(n % 10));
    }
}

/// The sum of the occurrence counts over all parts.
pub open spec fn count_in_parts(parts: Seq<Seq<char>>, c: char) -> nat
    decreases parts.len(),
{
    if parts.len() == 0 {
        0
    } else {
        count_in_parts(parts.drop_last(), c) + count_char(parts.last(), c)
    }
}

/// Counting over joined parts adds the parts and the separators.
pub proof fn lemma_count_join(parts: Seq<Seq<char>>, sep: Seq<char>, c: char)
    requires
        count_char(sep, c) == 0,
    ensures
        count_char(join(parts, sep), c) == count_in_parts(parts, c),
    decreases parts.len(),
{
    if parts.len() == 0 {
        assert(count_char(Seq::<char>::empty(), c) == 0);
    } else if parts.len() == 1 {
        assert(parts.drop_last() =~= Seq::<Seq<char>>::empty());
        assert(count_in_parts(parts.drop_last(), c) == 0);
        assert(join(parts, sep) == parts[0]);
    } else {
        lemma_count_join(parts.drop_last(), sep, c);
        lemma_count_concat(join(parts.drop_last(), sep), sep, c);
        lemma_count_concat(join(parts.drop_last(), sep) + sep, parts.last(), c);
    }
}

/// Concatenation of `parts` with `sep` between consecutive ones.
pub fn join_strs(parts: &Vec<&str>, sep: &str) -> (s: String)
    ensures
        s@ == join(parts@.map_values(|p: &str| p@), sep@),
{
    let ghost views = parts@.map_values(|p: &str| p@);
    let mut s = String::new();
    let mut i: usize = 0;
    while i < parts.len()
        invariant
            i <= parts@.len(),
            views == parts@.map_values(|p: &str| p@),
            s@ == join(views.subrange(0, i as int), sep@),
        decreases parts@.len() - i,
    {
        if i > 0 {
            s.append(sep);
        }
        s.append(parts[i]);
        i = i + 1;
        assert(views.subrange(0, i as int).drop_last() =~= views.subrange(0, i - 1));
        assert(views.subrange(0, i as int).last() == parts@[i - 1]@);
        if i == 1 {
            assert(views.subrange(0, 0) =~= Seq::<Seq<char>>::empty());
        }
    }
    assert(views.subrange(0, parts@.len() as int) =~= views);
    s
}

/// Whether the characters equal the text.
pub fn chars_eq_str(a: &[char], lit: &str) -> (r: bool)
    ensures
        r == (a@ == lit@),
{
    let n = lit.unicode_len();
    if a.len() != n {
        return false;
    }
    let mut i: usize = 0;
    while i < n
        invariant
            n == lit@.len(),
            a@.len() == n,
            i <= n,
            forall|j: int| 0 <= j < i ==> a@[j] == lit@[j],
        decreases n - i,
    {
        if a[i] != lit.get_char(i) {
            return false;
        }
        i = i + 1;
    }
    assert(a@ =~= lit@);
    true
}

/// Whether the characters begin with the text.
pub fn chars_start_with(a: &[char], lit: &str) -> (r: bool)
    ensures
        r == (lit@.len() <= a@.len() && a@.subrange(0, lit@.len() as int) == lit@),
{
    let n = lit.unicode_len();
    if a.len() < n {
        return false;
    }
    let mut i: usize = 0;
    while i < n
        invariant
            n == lit@.len(),
            n <= a@.len(),
            i <= n,
            forall|j: int| 0 <= j < i ==> a@[j] == lit@[j],
        decreases n - i,
    {
        if a[i] != lit.get_char(i) {
            assert(a@.subrange(0, n as int)[i as int] != lit@[i as int]);
            return false;
        }
        i = i + 1;
    }
    assert(a@.subrange(0, n as int) =~= lit@);
    true
}

/// Whether a character beyond ASCII has the Unicode White_Space property:
/// next line (U+0085), no-break space (U+00A0), ogham space mark (U+1680),
/// the spaces U+2000 to U+200A, line and paragraph separators (U+2028,
/// U+2029), narrow no-break space (U+202F), medium mathematical space
/// (U+205F) and ideographic space (U+3000).
#[verifier::opaque]
pub open spec fn wide_whitespace(c: char) -> bool {
    let n = c as u32;
    ||| n == 0x85
    ||| n == 0xA0
    ||| n == 0x1680
    ||| 0x2000 <= n <= 0x200A
    ||| n == 0x2028
    ||| n == 0x2029
    ||| n == 0x202F
    ||| n == 0x205F
    ||| n == 0x3000
}

/// Whether a character has the Unicode White_Space property: among ASCII
/// characters exactly space, tab, line feed, vertical tab, form feed and
/// carriage return; beyond ASCII, those `wide_whitespace` lists.
pub open spec fn whitespace(c: char) -> bool {
    if (c as u32) < 128 {
        c == ' ' || c == '\t' || c == '\n' || c == '\u{b}' || c == '\u{c}' || c == '\r'
    } else {
        wide_whitespace(c)
    }
}

/// Whether a character is whitespace, as `char::is_whitespace` decides it
/// (see `whitespace`).
pub fn is_whitespace(c: char) -> (r: bool)
    ensures
        r == whitespace(c),
{
    proof {
        reveal(wide_whitespace);
    }
    let n = c as u32;
    if n < 128 {
        c == ' ' || c == '\t' || c == '\n' || c == '\u{b}' || c == '\u{c}' || c == '\r'
    } else {
        n == 0x85 || n == 0xA0 || n == 0x1680 || (0x2000 <= n && n <= 0x200A) || n == 0x2028 || n
            == 0x2029 || n == 0x202F || n == 0x205F || n == 0x3000
    }
}

/// The number of whitespace characters the text begins with.
pub open spec fn leading_ws(s: Seq<char>) -> nat
    decreases s.len(),
{
    if s.len() > 0 && whitespace(s[0]) {
        1 + leading_ws(s.drop_first())
    } else {
        0
    }
}

/// The number of whitespace characters the text ends with.
pub open spec fn trailing_ws(s: Seq<char>) -> nat
    decreases s.len(),
{
    if s.len() > 0 && whitespace(s.last()) {
        1 + trailing_ws(s.drop_last())
    } else {
        0
    }
}

/// The text without its trailing whitespace.
pub open spec fn trim_end_spec(s: Seq<char>) -> Seq<char> {
    s.subrange(0, s.len() - trailing_ws(s))
}

/// The text without its leading and trailing whitespace.
pub open spec fn trim_spec(s: Seq<char>) -> Seq<char> {
    let t = trim_end_spec(s);
    t.subrange(leading_ws(t) as int, t.len() as int)
}

/// A text has no more trailing whitespace than characters.
pub proof fn lemma_trailing_ws_bound(s: Seq<char>)
    ensures
        trailing_ws(s) <= s.len(),
    decreases s.len(),
{
    if s.len() > 0 && whitespace(s.last()) {
        lemma_trailing_ws_bound(s.drop_last());
    }
}

/// Every character of the text is whitespace.
pub open spec fn all_ws(s: Seq<char>) -> bool {
    trailing_ws(s) == s.len()
}

/// The trailing whitespace of two texts put together: that of the second,
/// unless the second is all whitespace, in which case the first's counts too.
pub proof fn lemma_trailing_ws_concat(a: Seq<char>, b: Seq<char>)
    ensures
        trailing_ws(a + b) == if all_ws(b) {
            b.len() + trailing_ws(a)
        } else {
            trailing_ws(b)
        },
    decreases b.len(),
{
    if b.len() == 0 {
        assert(a + b =~= a);
    } else {
        assert((a + b).last() == b.last());
        assert((a + b).drop_last() =~= a + b.drop_last());
        if whitespace(b.last()) {
            lemma_trailing_ws_concat(a, b.drop_last());
        } else {
            lemma_trailing_ws_bound(b.drop_last());
        }
    }
}

/// The text without its trailing whitespace ends with no whitespace.
pub proof fn lemma_trim_end_trimmed(s: Seq<char>)
    ensures
        trailing_ws(trim_end_spec(s)) == 0,
        trim_end_spec(trim_end_spec(s)) == trim_end_spec(s),
    decreases s.len(),
{
    lemma_trailing_ws_bound(s);
    if s.len() > 0 && whitespace(s.last()) {
        lemma_trim_end_trimmed(s.drop_last());
        assert(trim_end_spec(s) =~= trim_end_spec(s.drop_last()));
    } else {
        assert(trim_end_spec(s) =~= s);
    }
    let t = trim_end_spec(s);
    assert(t.subrange(0, t.len() - trailing_ws(t)) =~= t);
}

/// Trimming the end first does not change the trimmed text.
pub proof fn lemma_trim_after_trim_end(s: Seq<char>)
    ensures
        trim_spec(trim_end_spec(s)) == trim_spec(s),
{
    lemma_trim_end_trimmed(s);
}

/// A text and a line feed: the line feed is trailing whitespace.
pub proof fn lemma_trim_end_newline(t: Seq<char>)
    requires
        trailing_ws(t) == 0,
    ensures
        trim_end_spec(t + seq!['\n']) == t,
        trim_end_spec(t + seq!['\n', '\n']) == t,
{
    lemma_trailing_ws_concat(t, seq!['\n']);
    assert(seq!['\n'].drop_last() =~= Seq::<char>::empty());
    assert(('\n' as u32) == 10);
    assert(whitespace('\n'));
    assert(trailing_ws(Seq::<char>::empty()) == 0);
    assert(seq!['\n'].last() == '\n');
    assert(trailing_ws(seq!['\n']) == 1);
    assert((t + seq!['\n']).subrange(0, t.len() as int) =~= t);
    let nn = seq!['\n', '\n'];
    assert(nn.drop_last() =~= seq!['\n']);
    assert(trailing_ws(nn) == 2);
    lemma_trailing_ws_concat(t, nn);
    assert((t + nn).subrange(0, t.len() as int) =~= t);
}

proof fn lemma_leading_ws_bound(s: Seq<char>)
    ensures
        leading_ws(s) <= s.len(),
    decreases s.len(),
{
    if s.len() > 0 && whitespace(s[0]) {
        lemma_leading_ws_bound(s.drop_first());
    }
}

/// The length of `cs` without its trailing whitespace.
pub fn trimmed_end_len(cs: &Vec<char>) -> (n: usize)
    ensures
        n == cs@.len() - trailing_ws(cs@),
{
    let mut n = cs.len();
    proof {
        lemma_trailing_ws_bound(cs@);
        assert(cs@.subrange(0, n as int) =~= cs@);
    }
    while n > 0 && is_whitespace(cs[n - 1])
        invariant
            n <= cs@.len(),
            trailing_ws(cs@) == (cs@.len() - n) + trailing_ws(cs@.subrange(0, n as int)),
        decreases n,
    {
        assert(cs@.subrange(0, n as int).drop_last() =~= cs@.subrange(0, n - 1));
        n = n - 1;
    }
    assert(trailing_ws(cs@.subrange(0, n as int)) == 0);
    n
}

/// The number of leading whitespace characters among the first `end`.
pub fn leading_ws_len(cs: &Vec<char>, end: usize) -> (n: usize)
    requires
        end <= cs@.len(),
    ensures
        n == leading_ws(cs@.subrange(0, end as int)),
        n <= end,
{
    let ghost t = cs@.subrange(0, end as int);
    let mut n: usize = 0;
    proof {
        lemma_leading_ws_bound(t);
        assert(t.subrange(0, end as int) =~= t);
    }
    while n < end && is_whitespace(cs[n])
        invariant
            t == cs@.subrange(0, end as int),
            n <= end <= cs@.len(),
            leading_ws(t) == n + leading_ws(t.subrange(n as int, end as int)),
        decreases end - n,
    {
        assert(t.subrange(n as int, end as int).drop_first() =~= t.subrange(n + 1, end as int));
        n = n + 1;
    }
    assert(leading_ws(t.subrange(n as int, end as int)) == 0);
    n
}

/// The text without its trailing whitespace.
pub fn trim_end(s: &str) -> (r: String)
    ensures
        r@ == trim_end_spec(s@),
{
    let cs = chars_of(s);
    let n = trimmed_end_len(&cs);
    let mut r = String::new();
    let mut i: usize = 0;
    while i < n
        invariant
            n <= cs@.len(),
            i <= n,
            r@ == cs@.subrange(0, i as int),
        decreases n - i,
    {
        push_char(&mut r, cs[i]);
        i = i + 1;
        assert(r@ =~= cs@.subrange(0, i as int));
    }
    r
}

/// The text without its leading and trailing whitespace.
pub fn trim(s: &str) -> (r: String)
    ensures
        r@ == trim_spec(s@),
{
    let cs = chars_of(s);
    let end = trimmed_end_len(&cs);
    let start = leading_ws_len(&cs, end);
    let mut r = String::new();
    let mut i: usize = start;
    while i < end
        invariant
            start <= i <= end <= cs@.len(),
            r@ == cs@.subrange(start as int, i as int),
        decreases end - i,
    {
        push_char(&mut r, cs[i]);
        i = i + 1;
        assert(r@ =~= cs@.subrange(start as int, i as int));
    }
    assert(trim_end_spec(s@) =~= cs@.subrange(0, end as int));
    assert(r@ =~= trim_spec(s@));
    r
}

/// Every character of the text is whitespace.
pub open spec fn blank(s: Seq<char>) -> bool {
    forall|i: int| 0 <= i < s.len() ==> whitespace(#[trigger] s[i])
}

/// Whether the text is empty once trimmed, i.e. holds only whitespace.
pub fn is_blank(s: &str) -> (r: bool)
    ensures
        r == blank(s@),
{
    let n = s.unicode_len();
    let mut i: usize = 0;
    while i < n
        invariant
            n == s@.len(),
            i <= n,
            forall|j: int| 0 <= j < i ==> whitespace(#[trigger] s@[j]),
        decreases n - i,
    {
        if !is_whitespace(s.get_char(i)) {
            return false;
        }
        i = i + 1;
    }
    true
}

/// A line without one trailing carriage return.
pub open spec fn strip_cr(l: Seq<char>) -> Seq<char> {
    if l.len() > 0 && l.last() == '\r' {
        l.drop_last()
    } else {
        l
    }
}

/// The position of the first line feed at or after `i`, or the length.
pub open spec fn line_end(s: Seq<char>, i: int) -> int
    decreases s.len() - i,
{
    if i >= s.len() {
        s.len() as int
    } else if s[i] == '\n' {
        i
    } else {
        line_end(s, i + 1)
    }
}

/// The lines of the text from position `i` on, split at line feeds; a line
/// ended by a line feed loses one carriage return before it, and a final
/// line feed does not start another line (as `str::lines` does).
pub open spec fn lines_from(s: Seq<char>, i: int) -> Seq<Seq<char>>
    decreases s.len() - i,
{
    if i < 0 || i >= s.len() {
        Seq::empty()
    } else {
        let e = line_end(s, i);
        if e < s.len() {
            seq![strip_cr(s.subrange(i, e))] + if e + 1 > i {
                lines_from(s, e + 1)
            } else {
                Seq::empty()
            }
        } else {
            seq![s.subrange(i, s.len() as int)]
        }
    }
}

/// The lines of a text.
pub open spec fn lines_of(s: Seq<char>) -> Seq<Seq<char>> {
    lines_from(s, 0)
}

proof fn lemma_line_end_bounds(s: Seq<char>, i: int)
    requires
        0 <= i <= s.len(),
    ensures
        i <= line_end(s, i) <= s.len(),
        line_end(s, i) < s.len() ==> s[line_end(s, i)] == '\n',
        forall|j: int| i <= j < line_end(s, i) ==> s[j] != '\n',
    decreases s.len() - i,
{
    if i < s.len() && s[i] != '\n' {
        lemma_line_end_bounds(s, i + 1);
    }
}

proof fn lemma_line_end_shift(a: Seq<char>, b: Seq<char>, j: int)
    requires
        0 <= j <= b.len(),
    ensures
        line_end(a + b, a.len() + j) == a.len() + line_end(b, j),
    decreases b.len() - j,
{
    if j < b.len() {
        assert((a + b)[a.len() + j] == b[j]);
        if b[j] != '\n' {
            lemma_line_end_shift(a, b, j + 1);
        }
    }
}

proof fn lemma_lines_from_shift(a: Seq<char>, b: Seq<char>, j: int)
    requires
        0 <= j,
    ensures
        lines_from(a + b, a.len() + j) == lines_from(b, j),
    decreases b.len() - j,
{
    if j < b.len() {
        lemma_line_end_shift(a, b, j);
        lemma_line_end_bounds(b, j);
        let e = line_end(b, j);
        assert((a + b).subrange(a.len() + j, a.len() + e) =~= b.subrange(j, e));
        if e < b.len() {
            lemma_lines_from_shift(a, b, e + 1);
        } else {
            assert((a + b).subrange(a.len() + j, (a + b).len() as int) =~= b.subrange(j, b.len() as int));
        }
    }
}

proof fn lemma_line_end_prefix(a: Seq<char>, b: Seq<char>, i: int)
    requires
        0 <= i < a.len(),
        a.last() == '\n',
    ensures
        line_end(a + b, i) == line_end(a, i),
        line_end(a, i) < a.len(),
    decreases a.len() - i,
{
    assert((a + b)[i] == a[i]);
    if a[i] != '\n' {
        lemma_line_end_prefix(a, b, i + 1);
    }
}

proof fn lemma_lines_from_concat(a: Seq<char>, b: Seq<char>, i: int)
    requires
        0 <= i <= a.len(),
        a.len() > 0,
        a.last() == '\n',
    ensures
        lines_from(a + b, i) == lines_from(a, i) + lines_from(b, 0),
    decreases a.len() - i,
{
    if i == a.len() {
        lemma_lines_from_shift(a, b, 0);
        assert(lines_from(a, i) =~= Seq::<Seq<char>>::empty());
        assert(lines_from(a, i) + lines_from(b, 0) =~= lines_from(b, 0));
    } else {
        lemma_line_end_prefix(a, b, i);
        lemma_line_end_bounds(a, i);
        let e = line_end(a, i);
        assert((a + b).subrange(i, e) =~= a.subrange(i, e));
        lemma_lines_from_concat(a, b, e + 1);
        assert(lines_from(a + b, i) =~= lines_from(a, i) + lines_from(b, 0));
    }
}

/// Splitting text after a line feed: the lines of the whole are the lines
/// of the first part followed by the lines of the second.
pub proof fn lemma_lines_concat(a: Seq<char>, b: Seq<char>)
    requires
        a.len() > 0,
        a.last() == '\n',
    ensures
        lines_of(a + b) == lines_of(a) + lines_of(b),
{
    lemma_lines_from_concat(a, b, 0);
}

/// A line without line feeds that does not end with a carriage return.
pub open spec fn simple_line(l: Seq<char>) -> bool {
    &&& !l.contains('\n')
    &&& (l.len() == 0 || l.last() != '\r')
}

/// A simple line followed by a line feed is that one line.
pub proof fn lemma_lines_single(l: Seq<char>)
    requires
        simple_line(l),
    ensures
        lines_of(l + seq!['\n']) == seq![l],
{
    let s = l + seq!['\n'];
    assert forall|j: int| 0 <= j < l.len() implies s[j] != '\n' by {
        assert(s[j] == l[j]);
        if l[j] == '\n' {
            assert(l.contains('\n'));
        }
    }
    lemma_line_end_upto(s, 0, l.len() as int);
    assert(s.subrange(0, l.len() as int) =~= l);
    assert(strip_cr(l) == l);
    assert(lines_from(s, l.len() as int + 1) =~= Seq::<Seq<char>>::empty());
    assert(lines_of(s) =~= seq![l]);
}

/// A line without line feeds followed by a line feed is that one line, with
/// a carriage return at its end taken off.
pub proof fn lemma_lines_single_line(l: Seq<char>)
    requires
        !l.contains('\n'),
    ensures
        lines_of(l + seq!['\n']) == seq![strip_cr(l)],
{
    let s = l + seq!['\n'];
    assert forall|j: int| 0 <= j < l.len() implies s[j] != '\n' by {
        assert(s[j] == l[j]);
        if l[j] == '\n' {
            assert(l.contains('\n'));
        }
    }
    lemma_line_end_upto(s, 0, l.len() as int);
    assert(s.subrange(0, l.len() as int) =~= l);
    assert(lines_from(s, l.len() as int + 1) =~= Seq::<Seq<char>>::empty());
    assert(lines_of(s) =~= seq![strip_cr(l)]);
}

/// No line holds a line feed.
pub open spec fn no_lf_lines(lines: Seq<Seq<char>>) -> bool {
    forall|i: int| 0 <= i < lines.len() ==> !(#[trigger] lines[i]).contains('\n')
}

proof fn lemma_lines_from_no_lf(s: Seq<char>, i: int)
    requires
        0 <= i,
    ensures
        no_lf_lines(lines_from(s, i)),
    decreases s.len() - i,
{
    if i < s.len() {
        lemma_line_end_bounds(s, i);
        let e = line_end(s, i);
        let seg = s.subrange(i, e);
        assert(!seg.contains('\n')) by {
            if seg.contains('\n') {
                let j = choose|j: int| 0 <= j < seg.len() && seg[j] == '\n';
                assert(s[i + j] == '\n');
            }
        }
        assert(!strip_cr(seg).contains('\n')) by {
            if strip_cr(seg).contains('\n') {
                let j = choose|j: int| 0 <= j < strip_cr(seg).len() && strip_cr(seg)[j] == '\n';
                assert(seg[j] == '\n');
            }
        }
        if e < s.len() {
            lemma_lines_from_no_lf(s, e + 1);
            let r = lines_from(s, e + 1);
            let all = seq![strip_cr(seg)] + r;
            assert(lines_from(s, i) == all);
            assert forall|k: int| 0 <= k < all.len() implies !(#[trigger] all[k]).contains('\n') by {
                if k > 0 {
                    assert(all[k] == r[k - 1]);
                }
            }
        } else {
            assert(seg =~= s.subrange(i, s.len() as int));
            assert(lines_from(s, i) == seq![seg]);
        }
    }
}

/// No line of a text holds a line feed.
pub proof fn lemma_lines_no_lf(s: Seq<char>)
    ensures
        no_lf_lines(lines_of(s)),
{
    lemma_lines_from_no_lf(s, 0);
}

/// Taking a final carriage return off a line does not change it once
/// trimmed.
pub proof fn lemma_trim_strip_cr(l: Seq<char>)
    ensures
        trim_spec(strip_cr(l)) == trim_spec(l),
        trim_end_spec(strip_cr(l)) == trim_end_spec(l),
{
    if l.len() > 0 && l.last() == '\r' {
        assert(whitespace('\r')) by {
            assert(('\r' as u32) == 13);
        }
        let d = l.drop_last();
        assert(trailing_ws(l) == 1 + trailing_ws(d));
        lemma_trailing_ws_bound(d);
        assert(trim_end_spec(l) =~= trim_end_spec(d));
    }
}

proof fn lemma_line_end_upto(s: Seq<char>, i: int, k: int)
    requires
        0 <= i <= k < s.len(),
        s[k] == '\n',
        forall|j: int| i <= j < k ==> s[j] != '\n',
    ensures
        line_end(s, i) == k,
    decreases k - i,
{
    if i < k {
        lemma_line_end_upto(s, i + 1, k);
    }
}

/// The lines of a text (see `lines_of`).
pub fn split_lines(s: &str) -> (r: Vec<String>)
    ensures
        string_views(r@) == lines_of(s@),
{
    let cs = chars_of(s);
    let n = cs.len();
    let mut r: Vec<String> = Vec::new();
    let mut i: usize = 0;
    while i < n
        invariant
            n == cs@.len(),
            cs@ == s@,
            i <= n,
            lines_of(s@) == string_views(r@) + lines_from(s@, i as int),
        decreases n - i,
    {
        let mut e = i;
        while e < n && cs[e] != '\n'
            invariant
                i <= e <= n,
                n == cs@.len(),
                line_end(cs@, i as int) == line_end(cs@, e as int),
            decreases n - e,
        {
            e = e + 1;
        }
        proof {
            lemma_line_end_bounds(cs@, i as int);
        }
        let ghost prev = r@;
        let ghost start = i as int;
        if e < n {
            let mut line_end_pos = e;
            if line_end_pos > i && cs[line_end_pos - 1] == '\r' {
                line_end_pos = line_end_pos - 1;
            }
            let mut line: Vec<char> = Vec::new();
            let mut k = i;
            while k < line_end_pos
                invariant
                    i <= k <= line_end_pos <= n,
                    n == cs@.len(),
                    line@ == cs@.subrange(i as int, k as int),
                decreases line_end_pos - k,
            {
                line.push(cs[k]);
                k = k + 1;
                assert(line@ =~= cs@.subrange(i as int, k as int));
            }
            assert(line@ =~= strip_cr(cs@.subrange(i as int, e as int)));
            r.push(string_from_chars(line.as_slice()));
            i = e + 1;
            assert(string_views(r@) =~= string_views(prev) + seq![strip_cr(cs@.subrange(start, e as int))]);
            assert(lines_from(s@, start) =~= seq![strip_cr(cs@.subrange(start, e as int))] + lines_from(s@, i as int));
        } else {
            r.push(string_from_char_range(&cs, i));
            assert(string_views(r@) =~= string_views(prev) + seq![cs@.subrange(i as int, n as int)]);
            i = n;
        }
    }
    assert(lines_from(s@, n as int) =~= Seq::<Seq<char>>::empty());
    assert(string_views(r@) =~= lines_of(s@));
    r
}

/// Whether two strings hold the same characters.
pub fn str_eq(a: &str, b: &str) -> (r: bool)
    ensures
        r == (a@ == b@),
{
    let n = a.unicode_len();
    if n != b.unicode_len() {
        return false;
    }
    let mut i: usize = 0;
    while i < n
        invariant
            n == a@.len(),
            n == b@.len(),
            i <= n,
            forall|j: int| 0 <= j < i ==> a@[j] == b@[j],
        decreases n - i,
    {
        if a.get_char(i) != b.get_char(i) {
            return false;
        }
        i = i + 1;
    }
    assert(a@ =~= b@);
    true
}

/// Appends the text padded on the right to `width` characters.
pub fn push_padded(out: &mut String, s: &str, width: usize)
    ensures
        final(out)@ == old(out)@ + padded_right(s@, width as nat),
{
    out.append(s);
    let n = s.unicode_len();
    let ghost base = out@;
    let mut k = n;
    while k < width
        invariant
            n == s@.len(),
            n <= k <= width || (n >= width && k == n),
            out@ == base + Seq::new((k - n) as nat, |i: int| ' '),
        decreases width - k,
    {
        push_char(out, ' ');
        k = k + 1;
        assert(out@ =~= base + Seq::new((k - n) as nat, |i: int| ' '));
    }
    assert(out@ =~= old(out)@ + padded_right(s@, width as nat));
}

} // verus!
