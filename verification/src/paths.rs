use vstd::prelude::*;

use crate::text::{string_views, chars_of, string_from_chars};

verus! {

/// The path `name` joined onto `base` the way a Unix path is pushed onto
/// another: an absolute `name` replaces `base`; otherwise a `/` is put
/// between them unless `base` is empty or already ends with one.
pub open spec fn joined(base: Seq<char>, name: Seq<char>) -> Seq<char> {
    if name.len() > 0 && name[0] == '/' {
        name
    } else if base.len() > 0 && base.last() != '/' {
        base + seq!['/'] + name
    } else {
        base + name
    }
}

/// Joins a relative or absolute path onto a base path.
pub fn path_join(base: &str, name: &str) -> (r: String)
    ensures
        r@ == joined(base@, name@),
{
    let name_len = name.unicode_len();
    if name_len > 0 && name.get_char(0) == '/' {
        return name.to_owned();
    }
    let base_len = base.unicode_len();
    let mut r = base.to_owned();
    if base_len > 0 && base.get_char(base_len - 1) != '/' {
        crate::text::push_char(&mut r, '/');
    }
    r.append(name);
    r
}

/// The name of the database file in the data directory.
pub const HISTORY_DB_FILE: &'static str = "history.db";

/// The version of the socket protocol: every message is one JSON hook
/// payload on a line of its own.
pub const PROTOCOL_VERSION: u8 = 1;

/// The name of the daemon's socket in the data directory.
pub const SOCKET_FILE: &'static str = "rewind.sock";

/// The path of the Unix domain socket the daemon listens on, inside the
/// data directory.
pub fn socket_path(data_dir: &str) -> (r: String)
    ensures
        r@ == joined(data_dir@, SOCKET_FILE@),
{
    path_join(data_dir, SOCKET_FILE)
}

/// The path of the history database inside the data directory.
pub fn history_db_path(data_dir: &str) -> (r: String)
    ensures
        r@ == joined(data_dir@, HISTORY_DB_FILE@),
{
    path_join(data_dir, HISTORY_DB_FILE)
}

/// The path without its final component, as `std::path::Path::parent`
/// computes it for a Unix path.
pub uninterp spec fn parent_of(p: Seq<char>) -> Option<Seq<char>>;

/// The parent directory of a path.
///
/// Trusted: `std::path::Path::parent` returns the path without its final
/// component, which is a proper prefix of the path, or None for a root or
/// empty path.
#[verifier::external_body]
pub fn path_parent(p: &str) -> (r: Option<String>)
    ensures
        match r {
            Some(q) => parent_of(p@) == Some(q@) && q@.len() < p@.len() && q@ == p@.subrange(
                0,
                q@.len() as int,
            ),
            None => parent_of(p@).is_none(),
        },
{
    std::path::Path::new(p).parent().map(|q| q.to_string_lossy().into_owned())
}

/// The final component of a path, as `std::path::Path::file_name` computes
/// it for a Unix path.
pub uninterp spec fn file_name_of(p: Seq<char>) -> Option<Seq<char>>;

/// A path made of one normal component: not empty, without `/`, and
/// neither `.` nor `..`.
pub open spec fn single_component(p: Seq<char>) -> bool {
    &&& p.len() > 0
    &&& !p.contains('/')
    &&& !(p.len() == 1 && p[0] == '.')
    &&& !(p.len() == 2 && p[0] == '.' && p[1] == '.')
}

/// The final component of a path, if it has one.
///
/// Trusted: `std::path::Path::file_name` returns the last component of the
/// path when it is a normal one (not `..`, not the root); a component is
/// never empty and never holds the separator `/`, and a path made of one
/// normal component (no `/`, not `.` or `..`) is its own final component.
#[verifier::external_body]
pub fn path_file_name(p: &str) -> (r: Option<String>)
    ensures
        match r {
            Some(n) => file_name_of(p@) == Some(n@) && n@.len() > 0 && !n@.contains('/'),
            None => file_name_of(p@) is None,
        },
        single_component(p@) ==> r.is_some() && r.unwrap()@ == p@,
{
    std::path::Path::new(p).file_name().map(|n| n.to_string_lossy().into_owned())
}

/// The directory and each of its ancestors, innermost first: every path
/// after the first is the parent of the one before, and the last has none.
pub open spec fn is_ancestor_chain(cwd: Seq<char>, chain: Seq<Seq<char>>) -> bool {
    &&& chain.len() >= 1
    &&& chain[0] == cwd
    &&& forall|k: int| 0 <= k < chain.len() - 1 ==> parent_of(#[trigger] chain[k]) == Some(chain[k + 1])
    &&& forall|k: int| 0 <= k < chain.len() - 1 ==> (#[trigger] chain[k + 1]).is_prefix_of(chain[k])
    &&& parent_of(chain.last()).is_none()
}

/// The directory followed by all of its ancestors.
pub fn ancestors(cwd: &str) -> (r: Vec<String>)
    ensures
        is_ancestor_chain(cwd@, string_views(r@)),
{
    let mut r: Vec<String> = Vec::new();
    let mut current = cwd.to_owned();
    r.push(current.clone());
    loop
        invariant
            r@.len() >= 1,
            string_views(r@)[0] == cwd@,
            r@.last()@ == current@,
            forall|k: int| 0 <= k < r@.len() - 1 ==> parent_of(#[trigger] string_views(r@)[k]) == Some(string_views(r@)[k + 1]),
            forall|k: int| 0 <= k < r@.len() - 1 ==> (#[trigger] string_views(r@)[k + 1]).is_prefix_of(string_views(r@)[k]),
        decreases current@.len(),
    {
        match path_parent(current.as_str()) {
            Some(parent) => {
                let ghost prev = r@;
                r.push(parent.clone());
                assert forall|k: int| 0 <= k < r@.len() - 1 implies parent_of(#[trigger] string_views(r@)[k]) == Some(string_views(r@)[k + 1]) by {
                    if k < prev.len() - 1 {
                        assert(string_views(r@)[k] == string_views(prev)[k]);
                        assert(string_views(r@)[k + 1] == string_views(prev)[k + 1]);
                    } else {
                        assert(string_views(r@)[k] == prev.last()@);
                    }
                }
                assert forall|k: int| 0 <= k < r@.len() - 1 implies (#[trigger] string_views(r@)[k + 1]).is_prefix_of(string_views(r@)[k]) by {
                    if k < prev.len() - 1 {
                        assert(string_views(r@)[k] == string_views(prev)[k]);
                        assert(string_views(r@)[k + 1] == string_views(prev)[k + 1]);
                    } else {
                        assert(string_views(r@)[k] == prev.last()@);
                        assert(string_views(r@)[k + 1] == parent@);
                    }
                }
                current = parent;
            },
            None => {
                assert(string_views(r@).last() == current@);
                return r;
            },
        }
    }
}

/// The position of the first marked directory, searching from `k`.
pub open spec fn first_marked(marked: Seq<bool>, k: int) -> Option<int>
    decreases marked.len() - k,
{
    if k < 0 || k >= marked.len() {
        None
    } else if marked[k] {
        Some(k)
    } else {
        first_marked(marked, k + 1)
    }
}

/// The innermost path of `chain` that is marked, or the first path when none
/// is.
pub open spec fn project_root(chain: Seq<Seq<char>>, marked: Seq<bool>) -> Seq<char> {
    match first_marked(marked, 0) {
        Some(k) => chain[k],
        None => chain[0],
    }
}

/// The project root for a directory: the innermost of the directory and its
/// ancestors (`chain`, innermost first) that holds a `.git` entry (as marked
/// in `has_git`), or the directory itself when none does.
pub fn find_project_root(chain: &Vec<String>, has_git: &Vec<bool>) -> (r: String)
    requires
        chain@.len() >= 1,
        has_git@.len() == chain@.len(),
    ensures
        r@ == project_root(string_views(chain@), has_git@),
{
    let mut k: usize = 0;
    while k < chain.len()
        invariant
            k <= chain@.len(),
            has_git@.len() == chain@.len(),
            first_marked(has_git@, 0) == first_marked(has_git@, k as int),
        decreases chain@.len() - k,
    {
        if has_git[k] {
            return chain[k].clone();
        }
        k = k + 1;
    }
    chain[0].clone()
}

/// The path with every trailing `/` removed.
pub open spec fn without_trailing_slashes(p: Seq<char>) -> Seq<char>
    decreases p.len(),
{
    if p.len() > 0 && p.last() == '/' {
        without_trailing_slashes(p.drop_last())
    } else {
        p
    }
}

/// The repository root as recorded: the work tree path without trailing
/// slashes.
pub fn trim_trailing_slashes(p: &str) -> (r: String)
    ensures
        r@ == without_trailing_slashes(p@),
{
    let cs = chars_of(p);
    let mut n = cs.len();
    assert(cs@.subrange(0, n as int) =~= cs@);
    while n > 0 && cs[n - 1] == '/'
        invariant
            n <= cs@.len(),
            without_trailing_slashes(cs@) == without_trailing_slashes(cs@.subrange(0, n as int)),
        decreases n,
    {
        assert(cs@.subrange(0, n as int).drop_last() =~= cs@.subrange(0, n - 1));
        n = n - 1;
    }
    let mut out: Vec<char> = Vec::new();
    let mut i: usize = 0;
    while i < n
        invariant
            n <= cs@.len(),
            i <= n,
            out@ == cs@.subrange(0, i as int),
        decreases n - i,
    {
        out.push(cs[i]);
        i = i + 1;
        assert(out@ =~= cs@.subrange(0, i as int));
    }
    string_from_chars(out.as_slice())
}

/// Where each path of the chain is marked, by a mark that depends on the
/// path alone (as a `.git` entry does while the file system is unchanged).
pub open spec fn marks_of(chain: Seq<Seq<char>>, marked: spec_fn(Seq<char>) -> bool) -> Seq<bool> {
    Seq::new(chain.len(), |k: int| marked(chain[k]))
}

proof fn lemma_first_marked_range(marked: Seq<bool>, k: int)
    requires
        0 <= k,
    ensures
        first_marked(marked, k) matches Some(j) ==> k <= j < marked.len() && marked[j],
        first_marked(marked, k) is None ==> forall|j: int| k <= j < marked.len() ==> !marked[j],
    decreases marked.len() - k,
{
    if k < marked.len() && !marked[k] {
        lemma_first_marked_range(marked, k + 1);
    }
}

/// Two ancestor chains of the same directory are the same chain.
proof fn lemma_ancestor_chain_unique(cwd: Seq<char>, c1: Seq<Seq<char>>, c2: Seq<Seq<char>>)
    requires
        is_ancestor_chain(cwd, c1),
        is_ancestor_chain(cwd, c2),
    ensures
        c1 == c2,
{
    assert forall|k: int| 0 <= k < c1.len() && k < c2.len() implies c1[k] == c2[k] by {
        lemma_chains_agree(cwd, c1, c2, k);
    }
    if c1.len() < c2.len() {
        let n = c1.len() - 1;
        assert(c1[n] == c2[n]);
        assert(parent_of(c2[n]) == Some(c2[n + 1]));
    } else if c2.len() < c1.len() {
        let n = c2.len() - 1;
        assert(c1[n] == c2[n]);
        assert(parent_of(c1[n]) == Some(c1[n + 1]));
    }
    assert(c1 =~= c2);
}

proof fn lemma_chains_agree(cwd: Seq<char>, c1: Seq<Seq<char>>, c2: Seq<Seq<char>>, k: int)
    requires
        is_ancestor_chain(cwd, c1),
        is_ancestor_chain(cwd, c2),
        0 <= k < c1.len(),
        k < c2.len(),
    ensures
        c1[k] == c2[k],
    decreases k,
{
    if k > 0 {
        lemma_chains_agree(cwd, c1, c2, k - 1);
        assert(parent_of(c1[k - 1]) == Some(c1[k]));
        assert(parent_of(c2[k - 1]) == Some(c2[k]));
    }
}

proof fn lemma_chain_prefix(chain: Seq<Seq<char>>, cwd: Seq<char>, k: int)
    requires
        is_ancestor_chain(cwd, chain),
        0 <= k < chain.len(),
    ensures
        chain[k].is_prefix_of(cwd),
    decreases k,
{
    if k > 0 {
        lemma_chain_prefix(chain, cwd, k - 1);
        assert(chain[k].is_prefix_of(chain[k - 1]));
        assert(chain[k] =~= cwd.subrange(0, chain[k].len() as int));
    }
}

/// The project root is the directory or one of its ancestors (a prefix of
/// its path), and looking for the project root from the project root finds
/// it again, as long as each directory's mark stays the same.
pub proof fn lemma_project_root_fixed_point(
    cwd: Seq<char>,
    chain: Seq<Seq<char>>,
    root_chain: Seq<Seq<char>>,
    marked: spec_fn(Seq<char>) -> bool,
)
    requires
        is_ancestor_chain(cwd, chain),
        is_ancestor_chain(project_root(chain, marks_of(chain, marked)), root_chain),
    ensures
        project_root(chain, marks_of(chain, marked)).is_prefix_of(cwd),
        project_root(root_chain, marks_of(root_chain, marked)) == project_root(chain, marks_of(chain, marked)),
{
    let m = marks_of(chain, marked);
    let root = project_root(chain, m);
    lemma_first_marked_range(m, 0);
    match first_marked(m, 0) {
        Some(k) => {
            lemma_chain_prefix(chain, cwd, k);
            assert(marked(root_chain[0]));
            assert(marks_of(root_chain, marked)[0]);
        },
        None => {
            lemma_chain_prefix(chain, cwd, 0);
            lemma_ancestor_chain_unique(cwd, chain, root_chain);
        },
    }
}

} // verus!
