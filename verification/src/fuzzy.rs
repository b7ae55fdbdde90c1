use vstd::prelude::*;

use nucleo_matcher::pattern::{AtomKind, CaseMatching, Normalization, Pattern};
use nucleo_matcher::Matcher;

use crate::entry::Entry;

verus! {

#[verifier::external_type_specification]
#[verifier::external_body]
pub struct ExMatcher(Matcher);

/// The score nucleo's fuzzy matcher gives `text` for the search `term`
/// (smart case, smart normalisation, fuzzy atoms, default configuration),
/// or None when the text does not match.
pub uninterp spec fn fuzzy_score(term: Seq<char>, text: Seq<char>) -> Option<u32>;

/// A fuzzy matcher with nucleo's default configuration.
///
/// Trusted: calls `nucleo_matcher::Matcher::new(Config::DEFAULT)`.
#[verifier::external_body]
fn new_matcher() -> (m: Matcher) {
    Matcher::new(nucleo_matcher::Config::DEFAULT)
}

/// A reusable fuzzy matcher. It is only ever built with nucleo's default
/// configuration, so a search ranks the same whichever matcher runs it; it
/// keeps the matcher's scratch memory between searches.
pub struct FuzzyMatcher {
    matcher: Matcher,
}

impl FuzzyMatcher {
    /// A matcher with nucleo's default configuration.
    pub fn new() -> (m: FuzzyMatcher) {
        FuzzyMatcher { matcher: new_matcher() }
    }
}

/// The number of bytes a character takes in UTF-8.
pub open spec fn utf8_width(c: char) -> nat {
    let n = c as u32;
    if n < 0x80 {
        1
    } else if n < 0x800 {
        2
    } else if n < 0x10000 {
        3
    } else {
        4
    }
}

/// The number of bytes a text takes in UTF-8.
pub open spec fn utf8_len(s: Seq<char>) -> nat
    decreases s.len(),
{
    if s.len() == 0 {
        0
    } else {
        utf8_len(s.drop_last()) + utf8_width(s.last())
    }
}

/// The longest search term nucleo scores without overflow. With the
/// default configuration a matched character scores at most 16 plus a
/// bonus of at most 10 (twice that for the first character of a word), so
/// a word of `n` characters scores at most `26 * n + 10`, which fits in
/// nucleo's `u16` score while `n` is at most 2520; terms this short also
/// keep the sum over their words well inside `u32`.
pub const MAX_TERM_CHARS: usize = 2520;

/// A search term nucleo can score: at most `MAX_TERM_CHARS` characters.
pub open spec fn term_fits(term: Seq<char>) -> bool {
    term.len() <= MAX_TERM_CHARS
}

/// Every candidate's command is short enough for nucleo to score: at most
/// `u32::MAX` bytes in UTF-8.
pub open spec fn commands_fit(candidates: Seq<Entry>) -> bool {
    forall|i: int| 0 <= i < candidates.len() ==> utf8_len((#[trigger] candidates[i]).command@) <= u32::MAX
}

/// Scores `text` against the fuzzy pattern `term`.
///
/// Trusted: builds `nucleo_matcher::pattern::Pattern::new(term, Smart, Smart,
/// Fuzzy)` and calls `Pattern::score` on `text`. The configuration is set to
/// `Config::DEFAULT` first (what every `FuzzyMatcher` is built with), so the
/// score depends on `term` and `text` alone; the matcher only lends its
/// scratch memory. A pattern with no words (as for the empty term) scores
/// every text `Some(0)`, as `Pattern::score` does for an empty atom list.
/// `Matcher::fuzzy_match` panics when the text as nucleo holds it (its
/// UTF-8 bytes when it falls back to the ASCII form, else its characters,
/// never more than its UTF-8 bytes) is longer than `u32::MAX`, and with
/// overflow checks its `u16` word scores can overflow only for words longer
/// than `MAX_TERM_CHARS`; `requires` leaves both out.
#[verifier::external_body]
fn score_text(matcher: &mut Matcher, term: &str, text: &str) -> (r: Option<u32>)
    requires
        term_fits(term@),
        utf8_len(text@) <= u32::MAX,
    ensures
        r == fuzzy_score(term@, text@),
        term@.len() == 0 ==> r == Some(0u32),
{
    matcher.config = nucleo_matcher::Config::DEFAULT;
    let pattern = Pattern::new(term, CaseMatching::Smart, Normalization::Smart, AtomKind::Fuzzy);
    let mut buf = Vec::new();
    pattern.score(nucleo_matcher::Utf32Str::new(text, &mut buf), matcher)
}

/// `a` is ranked before `b`: a higher score, or an equal score and an earlier
/// position in the history.
pub open spec fn ranks_before(a: (u32, usize), b: (u32, usize)) -> bool {
    a.0 > b.0 || (a.0 == b.0 && a.1 < b.1)
}

/// The score of candidate `i`.
pub open spec fn score_of(candidates: Seq<Entry>, term: Seq<char>, i: int) -> Option<u32> {
    fuzzy_score(term, candidates[i].command@)
}

/// The number of matching candidates among the first `n`.
pub open spec fn match_count(candidates: Seq<Entry>, term: Seq<char>, n: int) -> nat
    decreases n,
{
    if n <= 0 {
        0
    } else {
        match_count(candidates, term, n - 1) + if score_of(candidates, term, n - 1).is_some() {
            1nat
        } else {
            0nat
        }
    }
}

/// The ranking key of a matching candidate.
pub open spec fn key_of(candidates: Seq<Entry>, term: Seq<char>, i: int) -> (u32, usize) {
    (score_of(candidates, term, i).unwrap(), i as usize)
}

/// `r` lists the best `limit` matches among the first `n` candidates, best
/// first: it holds matching positions only, strictly in ranking order, as many
/// as there are matches (at most `limit`), and every match left out ranks
/// after every one listed.
pub open spec fn is_top_matches(
    candidates: Seq<Entry>,
    term: Seq<char>,
    n: int,
    limit: usize,
    r: Seq<usize>,
) -> bool {
    &&& r.len() == if match_count(candidates, term, n) < limit {
        match_count(candidates, term, n)
    } else {
        limit as nat
    }
    &&& forall|k: int| 0 <= k < r.len() ==> #[trigger] r[k] < n && score_of(candidates, term, r[k] as int).is_some()
    &&& forall|k1: int, k2: int|
        0 <= k1 < k2 < r.len() ==> ranks_before(
            key_of(candidates, term, r[k1] as int),
            key_of(candidates, term, r[k2] as int),
        )
    &&& forall|j: int|
        0 <= j < n && score_of(candidates, term, j).is_some() && !r.contains(j as usize) ==> forall|
            k: int,
        |
            0 <= k < r.len() ==> ranks_before(
                key_of(candidates, term, r[k] as int),
                key_of(candidates, term, j),
            )
}

/// Strictly ordered by ranking.
pub open spec fn sorted_keys(s: Seq<(u32, usize)>) -> bool {
    forall|k1: int, k2: int| 0 <= k1 < k2 < s.len() ==> ranks_before(s[k1], s[k2])
}

/// Inserts `item` at its ranking position, keeping at most `limit` entries.
fn insert_ranked(top: &mut Vec<(u32, usize)>, item: (u32, usize), limit: usize)
    requires
        sorted_keys(old(top)@),
        old(top)@.len() <= limit,
        forall|k: int| 0 <= k < old(top)@.len() ==> #[trigger] old(top)@[k].1 < item.1,
    ensures
        sorted_keys(final(top)@),
        final(top)@.len() == if old(top)@.len() < limit {
            old(top)@.len() + 1
        } else {
            limit as nat
        },
        old(top)@.len() < limit ==> final(top)@.contains(item) && forall|x: (u32, usize)|
            old(top)@.contains(x) ==> final(top)@.contains(x),
        forall|x: (u32, usize)| #[trigger]
            final(top)@.contains(x) ==> x == item || old(top)@.contains(x),
        forall|x: (u32, usize)|
            (old(top)@.contains(x) || x == item) && !final(top)@.contains(x) ==> forall|k: int|
                0 <= k < final(top)@.len() ==> ranks_before(#[trigger] final(top)@[k], x),
        old(top)@.len() == limit && final(top)@.contains(item) ==> {
            &&& old(top)@.len() > 0
            &&& !final(top)@.contains(old(top)@.last())
            &&& ranks_before(item, old(top)@.last())
        },
{
    let ghost before = top@;
    let mut p: usize = 0;
    while p < top.len() && top[p].0 >= item.0
        invariant
            top@ == before,
            p <= top@.len(),
            forall|k: int| 0 <= k < p ==> (#[trigger] top@[k]).0 >= item.0,
        decreases top@.len() - p,
    {
        p = p + 1;
    }
    // Everything before `p` ranks before the item, everything from `p` on after it.
    assert forall|k: int| 0 <= k < before.len() implies (k < p ==> ranks_before(
        #[trigger] before[k],
        item,
    )) && (k >= p ==> ranks_before(item, before[k])) by {
        if k >= p {
            assert(ranks_before(before[p as int], before[k]) || k == p);
        }
    }
    top.insert(p, item);
    let ghost inserted = top@;
    assert(inserted =~= before.subrange(0, p as int).push(item) + before.subrange(p as int, before.len() as int));
    assert(sorted_keys(inserted)) by {
        assert forall|k1: int, k2: int| 0 <= k1 < k2 < inserted.len() implies ranks_before(
            inserted[k1],
            inserted[k2],
        ) by {
            if k1 < p && k2 > p {
                assert(inserted[k2] == before[k2 - 1]);
            } else if k1 > p {
                assert(inserted[k1] == before[k1 - 1]);
                assert(inserted[k2] == before[k2 - 1]);
            }
        }
    }
    assert forall|x: (u32, usize)| #[trigger] inserted.contains(x) implies x == item || before.contains(x) by {
        let k = choose|k: int| 0 <= k < inserted.len() && inserted[k] == x;
        if k < p {
            assert(before[k] == x);
        } else if k > p {
            assert(before[k - 1] == x);
        }
    }
    assert forall|x: (u32, usize)| #[trigger] before.contains(x) implies inserted.contains(x) by {
        let k = choose|k: int| 0 <= k < before.len() && before[k] == x;
        if k < p {
            assert(inserted[k] == x);
        } else {
            assert(inserted[k + 1] == x);
        }
    }
    assert(inserted[p as int] == item);
    if top.len() > limit {
        let dropped = top.pop().unwrap();
        assert(top@ =~= inserted.drop_last());
        assert(dropped == inserted.last());
        assert forall|x: (u32, usize)| #[trigger] top@.contains(x) implies inserted.contains(x) by {
            let k = choose|k: int| 0 <= k < top@.len() && top@[k] == x;
            assert(inserted[k] == x);
        }
        assert(!top@.contains(dropped)) by {
            if top@.contains(dropped) {
                let k = choose|k: int| 0 <= k < top@.len() && top@[k] == dropped;
                assert(ranks_before(inserted[k], inserted[inserted.len() - 1]));
            }
        }
        assert forall|x: (u32, usize)|
            (before.contains(x) || x == item) && !top@.contains(x) implies forall|k: int|
                0 <= k < top@.len() ==> ranks_before(#[trigger] top@[k], x) by {
            assert(inserted.contains(x));
            let m = choose|m: int| 0 <= m < inserted.len() && inserted[m] == x;
            if m < inserted.len() - 1 {
                assert(top@[m] == x);
            }
            assert forall|k: int| 0 <= k < top@.len() implies ranks_before(#[trigger] top@[k], x) by {
                assert(top@[k] == inserted[k]);
            }
        }
        assert(top@.contains(item) ==> {
            &&& p < before.len()
            &&& dropped == before.last()
            &&& ranks_before(item, before[before.len() - 1])
        }) by {
            if top@.contains(item) {
                let m = choose|m: int| 0 <= m < top@.len() && top@[m] == item;
                assert(inserted[m] == item);
                if m != p {
                    if m < p {
                        assert(ranks_before(inserted[m], inserted[p as int]));
                    } else {
                        assert(ranks_before(inserted[p as int], inserted[m]));
                    }
                }
                assert(p < inserted.len() - 1);
            }
        }
    } else {
        assert forall|x: (u32, usize)|
            (before.contains(x) || x == item) && !top@.contains(x) implies forall|k: int|
                0 <= k < top@.len() ==> ranks_before(#[trigger] top@[k], x) by {
            assert(top@.contains(item));
        }
    }
}

/// Scores history entries against `term` using nucleo fuzzy matching and
/// returns the positions of the best matches in descending score order,
/// earlier history first among equal scores, at most `limit` of them.
///
/// The returned positions refer to `candidates`, so callers can keep view
/// state as positions without cloning or moving entries.
pub fn search_fuzzy_indices(
    matcher: &mut FuzzyMatcher,
    candidates: &[Entry],
    term: &str,
    limit: usize,
) -> (r: Vec<usize>)
    requires
        commands_fit(candidates@),
        term_fits(term@),
    ensures
        is_top_matches(candidates@, term@, candidates@.len() as int, limit, r@),
{
    let ghost cs = candidates@;
    let ghost t = term@;
    let mut top: Vec<(u32, usize)> = Vec::new();
    let mut i: usize = 0;
    while i < candidates.len()
        invariant
            cs == candidates@,
            t == term@,
            commands_fit(cs),
            term_fits(t),
            i <= cs.len(),
            sorted_keys(top@),
            top@.len() == if match_count(cs, t, i as int) < limit {
                match_count(cs, t, i as int)
            } else {
                limit as nat
            },
            forall|k: int|
                0 <= k < top@.len() ==> (#[trigger] top@[k]).1 < i && score_of(cs, t, top@[k].1 as int)
                    == Some(top@[k].0),
            top@.len() < limit ==> forall|j: int|
                0 <= j < i && score_of(cs, t, j).is_some() ==> top@.contains(key_of(cs, t, j)),
            forall|j: int|
                0 <= j < i && score_of(cs, t, j).is_some() && !top@.contains(key_of(cs, t, j))
                    ==> forall|k: int| 0 <= k < top@.len() ==> ranks_before(#[trigger] top@[k], key_of(cs, t, j)),
        decreases cs.len() - i,
    {
        let scored = score_text(&mut matcher.matcher, term, candidates[i].command.as_str());
        let ghost old_top = top@;
        match scored {
            Some(score) => {
                insert_ranked(&mut top, (score, i), limit);
                assert(key_of(cs, t, i as int) == (score, i));
                assert forall|k: int| 0 <= k < top@.len() implies (#[trigger] top@[k]).1 < i + 1
                    && score_of(cs, t, top@[k].1 as int) == Some(top@[k].0) by {
                    assert(top@.contains(top@[k]));
                    if top@[k] != (score, i) {
                        let m = choose|m: int| 0 <= m < old_top.len() && old_top[m] == top@[k];
                    }
                }
                assert forall|j: int|
                    0 <= j < i + 1 && score_of(cs, t, j).is_some() && !top@.contains(key_of(cs, t, j))
                        implies forall|k: int| 0 <= k < top@.len() ==> ranks_before(#[trigger] top@[k], key_of(cs, t, j)) by {
                    if j < i && !old_top.contains(key_of(cs, t, j)) {
                        assert forall|k: int| 0 <= k < top@.len() implies ranks_before(#[trigger] top@[k], key_of(cs, t, j)) by {
                            assert(top@.contains(top@[k]));
                            if top@[k] == (score, i) {
                                let last = old_top.last();
                                assert(old_top.contains(last));
                            } else {
                                let m = choose|m: int| 0 <= m < old_top.len() && old_top[m] == top@[k];
                            }
                        }
                    }
                }
            },
            None => {
                assert(key_of(cs, t, i as int).1 == i);
            },
        }
        i = i + 1;
    }
    let mut r: Vec<usize> = Vec::new();
    let mut k: usize = 0;
    while k < top.len()
        invariant
            k <= top@.len(),
            r@.len() == k,
            forall|m: int| 0 <= m < k ==> r@[m] == (#[trigger] top@[m]).1,
        decreases top@.len() - k,
    {
        r.push(top[k].1);
        k = k + 1;
    }
    assert forall|k1: int, k2: int| 0 <= k1 < k2 < r@.len() implies ranks_before(
        key_of(cs, t, r@[k1] as int),
        key_of(cs, t, r@[k2] as int),
    ) by {
        assert(ranks_before(top@[k1], top@[k2]));
        assert(key_of(cs, t, r@[k1] as int) == top@[k1]);
        assert(key_of(cs, t, r@[k2] as int) == top@[k2]);
    }
    assert forall|j: int|
        0 <= j < cs.len() && score_of(cs, t, j).is_some() && !r@.contains(j as usize) implies forall|k: int|
            0 <= k < r@.len() ==> ranks_before(key_of(cs, t, r@[k] as int), key_of(cs, t, j)) by {
        if top@.contains(key_of(cs, t, j)) {
            let m = choose|m: int| 0 <= m < top@.len() && top@[m] == key_of(cs, t, j);
            assert(r@[m] == j as usize);
        }
        assert(!top@.contains(key_of(cs, t, j)));
        assert forall|k: int| 0 <= k < r@.len() implies ranks_before(key_of(cs, t, r@[k] as int), key_of(cs, t, j)) by {
            assert(ranks_before(top@[k], key_of(cs, t, j)));
            assert(key_of(cs, t, r@[k] as int) == top@[k]);
        }
    }
    assert forall|k: int| 0 <= k < r@.len() implies #[trigger] r@[k] < cs.len() && score_of(cs, t, r@[k] as int).is_some() by {
        assert(top@[k].1 < cs.len());
    }
    assert(r@.len() == top@.len());
    r
}

/// Runs a fuzzy search over history entries and returns the best `limit`
/// matches, best first (see `search_fuzzy_indices`).
pub fn search_fuzzy<'a>(candidates: &'a [Entry], term: &str, limit: usize) -> (r: Vec<&'a Entry>)
    requires
        commands_fit(candidates@),
        term_fits(term@),
    ensures
        exists|idx: Seq<usize>|
            {
                &&& is_top_matches(candidates@, term@, candidates@.len() as int, limit, idx)
                &&& r@.len() == idx.len()
                &&& forall|k: int| 0 <= k < idx.len() ==> *r@[k] == candidates@[#[trigger] idx[k] as int]
            },
{
    let mut matcher = FuzzyMatcher::new();
    let idx = search_fuzzy_indices(&mut matcher, candidates, term, limit);
    let mut r: Vec<&'a Entry> = Vec::new();
    let mut k: usize = 0;
    while k < idx.len()
        invariant
            k <= idx@.len(),
            is_top_matches(candidates@, term@, candidates@.len() as int, limit, idx@),
            r@.len() == k,
            forall|m: int| 0 <= m < k ==> *r@[m] == candidates@[#[trigger] idx@[m] as int],
        decreases idx@.len() - k,
    {
        let i = idx[k];
        r.push(&candidates[i]);
        k = k + 1;
    }
    r
}

/// Where two top-match lists agree below position `i`, the second list's
/// entry at `i` ranks before the first list's.
proof fn lemma_top_matches_rank_at(
    candidates: Seq<Entry>,
    term: Seq<char>,
    n: int,
    limit: usize,
    r1: Seq<usize>,
    r2: Seq<usize>,
    i: int,
)
    requires
        is_top_matches(candidates, term, n, limit, r1),
        is_top_matches(candidates, term, n, limit, r2),
        0 <= i < r1.len(),
        forall|k: int| 0 <= k < i ==> r1[k] == r2[k],
        r1[i] != r2[i],
    ensures
        ranks_before(key_of(candidates, term, r2[i] as int), key_of(candidates, term, r1[i] as int)),
{
    let a = r1[i];
    if r2.contains(a) {
        let j = choose|j: int| 0 <= j < r2.len() && r2[j] == a;
        if j < i {
            assert(r1[j] == a);
            assert(ranks_before(key_of(candidates, term, r1[j] as int), key_of(candidates, term, r1[i] as int)));
        } else if j > i {
            assert(ranks_before(key_of(candidates, term, r2[i] as int), key_of(candidates, term, r2[j] as int)));
        }
    } else {
        assert(r1[i] < n && score_of(candidates, term, r1[i] as int).is_some());
        assert(!r2.contains((a as int) as usize));
    }
}

/// Two top-match lists agree on every position below `k`.
proof fn lemma_top_matches_prefix(
    candidates: Seq<Entry>,
    term: Seq<char>,
    n: int,
    limit: usize,
    r1: Seq<usize>,
    r2: Seq<usize>,
    k: int,
)
    requires
        is_top_matches(candidates, term, n, limit, r1),
        is_top_matches(candidates, term, n, limit, r2),
        0 <= k <= r1.len(),
    ensures
        forall|i: int| 0 <= i < k ==> r1[i] == r2[i],
    decreases k,
{
    if k > 0 {
        lemma_top_matches_prefix(candidates, term, n, limit, r1, r2, k - 1);
        let i = k - 1;
        if r1[i] != r2[i] {
            lemma_top_matches_rank_at(candidates, term, n, limit, r1, r2, i);
            lemma_top_matches_rank_at(candidates, term, n, limit, r2, r1, i);
        }
    }
}

/// The best matches are determined: at most one list is the top-`limit`
/// match list of given candidates and term.
pub proof fn lemma_top_matches_unique(
    candidates: Seq<Entry>,
    term: Seq<char>,
    n: int,
    limit: usize,
    r1: Seq<usize>,
    r2: Seq<usize>,
)
    requires
        is_top_matches(candidates, term, n, limit, r1),
        is_top_matches(candidates, term, n, limit, r2),
    ensures
        r1 == r2,
{
    lemma_top_matches_prefix(candidates, term, n, limit, r1, r2, r1.len() as int);
    assert(r1 =~= r2);
}

/// A smaller limit gives a prefix of a larger limit's result: raising the
/// limit only appends lower-ranked matches.
pub proof fn lemma_smaller_limit_prefix(
    candidates: Seq<Entry>,
    term: Seq<char>,
    k1: usize,
    k2: usize,
    r1: Seq<usize>,
    r2: Seq<usize>,
)
    requires
        candidates.len() <= usize::MAX,
        k1 <= k2,
        is_top_matches(candidates, term, candidates.len() as int, k1, r1),
        is_top_matches(candidates, term, candidates.len() as int, k2, r2),
    ensures
        r1.len() <= r2.len(),
        r1 == r2.take(r1.len() as int),
{
    let n = candidates.len() as int;
    let l = r1.len() as int;
    assert(l <= r2.len());
    let t = r2.take(l);
    assert forall|j: int|
        0 <= j < n && score_of(candidates, term, j).is_some() && !t.contains(j as usize) implies forall|k: int|
            0 <= k < t.len() ==> ranks_before(
                key_of(candidates, term, t[k] as int),
                key_of(candidates, term, j),
            ) by {
        if r2.contains(j as usize) {
            let p = choose|p: int| 0 <= p < r2.len() && r2[p] == j as usize;
            if p < l {
                assert(t[p] == j as usize);
                assert(t.contains(j as usize));
            }
            assert(p >= l);
            assert(r2[p] as int == j);
            assert forall|k: int| 0 <= k < t.len() implies ranks_before(
                key_of(candidates, term, t[k] as int),
                key_of(candidates, term, j),
            ) by {
                assert(t[k] == r2[k]);
                assert(ranks_before(key_of(candidates, term, r2[k] as int), key_of(candidates, term, r2[p] as int)));
            }
        } else {
            assert forall|k: int| 0 <= k < t.len() implies ranks_before(
                key_of(candidates, term, t[k] as int),
                key_of(candidates, term, j),
            ) by {
                assert(t[k] == r2[k]);
            }
        }
    }
    assert forall|k: int| 0 <= k < t.len() implies #[trigger] t[k] < n && score_of(candidates, term, t[k] as int).is_some() by {
        assert(t[k] == r2[k]);
    }
    assert forall|a: int, b: int| 0 <= a < b < t.len() implies ranks_before(
        key_of(candidates, term, t[a] as int),
        key_of(candidates, term, t[b] as int),
    ) by {
        assert(t[a] == r2[a]);
        assert(t[b] == r2[b]);
    }
    assert(is_top_matches(candidates, term, n, k1, t));
    lemma_top_matches_unique(candidates, term, n, k1, r1, t);
}

} // verus!
