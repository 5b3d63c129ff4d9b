//! The navigation and search engine: the directory stack, the listing under a
//! cursor and a viewport, and incremental regular-expression search with a
//! bounded history.
use vstd::prelude::*;
use crate::listing::{sort_names, sorted_by_lower, stable_order};
use crate::canvas::Canvas;
use crate::ops::{Mode, Op};
use crate::pattern::{compile_pattern, first_hit, first_scan, regex_finds, regex_is_match, scan_pos, search_pattern};
use crate::text::{chars_of, push_char, string_of};

verus! {

/// Most search texts that the history keeps.
pub const SEARCH_HISTORY_LEN: usize = 256;

/// Viewport start that centres row `index` in a window of `height` rows.
pub open spec fn centered_start(index: int, height: int) -> int {
    if index > height / 2 {
        index - height / 2
    } else {
        0
    }
}

/// Path of the entry `name` inside the directory `parent`.
pub open spec fn join_path(parent: Seq<char>, name: Seq<char>) -> Seq<char> {
    if parent.len() > 0 && parent.last() == '/' {
        parent + name
    } else {
        parent + seq!['/'] + name
    }
}

/// Index of the last `/` of `p`, or -1.
pub open spec fn last_slash(p: Seq<char>) -> int
    decreases p.len(),
{
    if p.len() == 0 {
        -1
    } else if p.last() == '/' {
        p.len() - 1
    } else {
        last_slash(p.drop_last())
    }
}

/// The last component of path `p`: what follows its last `/`.
pub open spec fn last_component(p: Seq<char>) -> Seq<char> {
    p.subrange(last_slash(p) + 1, p.len() as int)
}

/// Whether `n` can name an entry of a directory: not empty, and free of `/`.
pub open spec fn valid_name(n: Seq<char>) -> bool {
    n.len() > 0 && !n.contains('/')
}

/// Index of the first entry of `s` called `name`, or `s.len()` where none is.
pub open spec fn index_of(s: Seq<String>, name: Seq<char>) -> int
    decreases s.len(),
{
    if s.len() == 0 {
        0
    } else if s[0]@ == name {
        0
    } else {
        1 + index_of(s.drop_first(), name)
    }
}

/// Whether `p` is a canonical absolute path: it starts with `/`, ends with
/// one only where it is the root, and never holds two in a row.
pub open spec fn canonical_path(p: Seq<char>) -> bool {
    &&& p.len() > 0
    &&& p[0] == '/'
    &&& p.len() == 1 || p.last() != '/'
    &&& forall|i: int| 0 <= i < p.len() - 1 ==> !(#[trigger] p[i] == '/' && p[i + 1] == '/')
}

proof fn lemma_last_slash_facts(p: Seq<char>)
    ensures
        -1 <= last_slash(p) < p.len(),
        last_slash(p) >= 0 ==> p[last_slash(p)] == '/',
        forall|j: int| last_slash(p) < j < p.len() ==> p[j] != '/',
    decreases p.len(),
{
    if p.len() > 0 && p.last() != '/' {
        lemma_last_slash_facts(p.drop_last());
        assert forall|j: int| last_slash(p) < j < p.len() implies p[j] != '/' by {
            if j < p.len() - 1 {
                assert(p[j] == p.drop_last()[j]);
            }
        }
    }
}

proof fn lemma_ancestors_same_prefix(p: Seq<char>, q: Seq<char>, k: int)
    requires
        0 <= k < p.len(),
        k < q.len(),
        p.subrange(0, k) == q.subrange(0, k),
    ensures
        ancestors_upto(p, k) == ancestors_upto(q, k),
    decreases k,
{
    if k > 0 {
        assert(p.subrange(0, k - 1) =~= p.subrange(0, k).subrange(0, k - 1));
        assert(q.subrange(0, k - 1) =~= q.subrange(0, k).subrange(0, k - 1));
        lemma_ancestors_same_prefix(p, q, k - 1);
        assert(p[k - 1] == p.subrange(0, k)[k - 1]);
        assert(q[k - 1] == q.subrange(0, k)[k - 1]);
        let e = if k - 1 == 0 { 1 } else { k - 1 };
        assert(p.subrange(0, e) =~= p.subrange(0, k).subrange(0, e));
        assert(q.subrange(0, e) =~= q.subrange(0, k).subrange(0, e));
    }
}

proof fn lemma_ancestors_no_slash(p: Seq<char>, j: int, k: int)
    requires
        0 <= j <= k <= p.len(),
        forall|i: int| j <= i < k ==> p[i] != '/',
    ensures
        ancestors_upto(p, k) == ancestors_upto(p, j),
    decreases k - j,
{
    if k > j {
        lemma_ancestors_no_slash(p, j, k - 1);
    }
}

/// The path of an entry of a canonical directory is canonical, and its
/// ancestors are the directory's with the directory itself after them.
pub proof fn lemma_ancestors_join(c: Seq<char>, name: Seq<char>)
    requires
        canonical_path(c),
        valid_name(name),
    ensures
        canonical_path(join_path(c, name)),
        ancestors(join_path(c, name)) == ancestors(c).push(c),
{
    let p = join_path(c, name);
    let n = c.len() as int;
    assert forall|i: int| 0 <= i < name.len() implies name[i] != '/' by {
        if name[i] == '/' {
            assert(name.contains('/'));
        }
    }
    if n == 1 {
        assert(p =~= c + name);
        lemma_ancestors_no_slash(p, 1, p.len() as int);
        assert(p.subrange(0, 1) =~= c);
        assert(ancestors_upto(c, 0) == Seq::<Seq<char>>::empty());
        assert(ancestors_upto(p, 0) == Seq::<Seq<char>>::empty());
        assert(ancestors(c) =~= Seq::<Seq<char>>::empty());
        assert(ancestors_upto(p, 1) == Seq::<Seq<char>>::empty().push(c));
        assert forall|i: int| 0 <= i < p.len() - 1 implies !(#[trigger] p[i] == '/' && p[i + 1] == '/') by {
            if i >= 1 {
                assert(p[i] == name[i - 1]);
            } else {
                assert(p[1] == name[0]);
            }
        }
    } else {
        assert(p =~= c + seq!['/'] + name);
        lemma_ancestors_no_slash(p, n + 1, p.len() as int);
        assert(p.subrange(0, n) =~= c);
        assert(p.subrange(0, n - 1) =~= c.subrange(0, n - 1));
        lemma_ancestors_same_prefix(p, c, n - 1);
        assert(p[n - 1] == c[n - 1]);
        assert(ancestors_upto(p, n) == ancestors_upto(p, n - 1));
        assert(ancestors_upto(c, n) == ancestors_upto(c, n - 1));
        assert forall|i: int| 0 <= i < p.len() - 1 implies !(#[trigger] p[i] == '/' && p[i + 1] == '/') by {
            if i < n - 1 {
                assert(p[i] == c[i] && p[i + 1] == c[i + 1]);
            } else if i == n - 1 {
                assert(p[i] == c[n - 1]);
            } else if i == n {
                assert(p[i + 1] == name[0]);
            } else {
                assert(p[i] == name[i - n - 1]);
            }
        }
    }
}

/// The last ancestor of a canonical path is canonical, and its own ancestors
/// are the others.
pub proof fn lemma_ancestors_parent(c: Seq<char>)
    requires
        canonical_path(c),
        ancestors(c).len() > 0,
    ensures
        canonical_path(ancestors(c).last()),
        ancestors(ancestors(c).last()) == ancestors(c).drop_last(),
{
    let n = c.len() as int;
    if n == 1 {
        assert(ancestors_upto(c, 0) == Seq::<Seq<char>>::empty());
        assert(ancestors(c) =~= Seq::<Seq<char>>::empty());
    }
    lemma_last_slash_facts(c);
    let m = last_slash(c);
    assert(m >= 0) by {
        if m < 0 {
            assert(c[0] != '/');
        }
    }
    assert(m < n - 1);
    lemma_ancestors_no_slash(c, m + 1, n);
    let e = if m == 0 { 1 } else { m };
    let q = c.subrange(0, e);
    assert(ancestors(c) == ancestors_upto(c, m).push(q));
    assert(ancestors(c).last() == q);
    assert(ancestors(c).drop_last() =~= ancestors_upto(c, m));
    if m == 0 {
        assert(ancestors_upto(q, 0) == Seq::<Seq<char>>::empty());
        assert(ancestors_upto(c, 0) == Seq::<Seq<char>>::empty());
        assert(ancestors(q) =~= Seq::<Seq<char>>::empty());
    } else {
        assert(c[m - 1] != '/') by {
            assert(!(c[m - 1] == '/' && c[m] == '/'));
        }
        assert(q.subrange(0, m - 1) =~= c.subrange(0, m - 1));
        lemma_ancestors_same_prefix(q, c, m - 1);
        assert(q[m - 1] == c[m - 1]);
        assert(ancestors_upto(q, m) == ancestors_upto(q, m - 1));
        assert(ancestors_upto(c, m) == ancestors_upto(c, m - 1));
        assert forall|i: int| 0 <= i < q.len() - 1 implies !(#[trigger] q[i] == '/' && q[i + 1] == '/') by {
            assert(q[i] == c[i] && q[i + 1] == c[i + 1]);
        }
    }
}

/// Whether `content` is `entries` in the order a listing is shown: sorted by
/// lowercase form, entries of equal lowercase form in the order given.
pub open spec fn listing_of(content: Seq<String>, entries: Seq<String>) -> bool {
    &&& sorted_by_lower(content)
    &&& content.to_multiset() == entries.to_multiset()
    &&& exists|orig: Seq<int>| stable_order(entries, content, orig)
}

proof fn lemma_last_slash_append(x: Seq<char>, e: Seq<char>)
    requires
        !e.contains('/'),
    ensures
        last_slash(x + e) == last_slash(x),
    decreases e.len(),
{
    if e.len() > 0 {
        assert((x + e).drop_last() =~= x + e.drop_last());
        assert(!e.drop_last().contains('/')) by {
            if e.drop_last().contains('/') {
                let k = choose|k: int| 0 <= k < e.drop_last().len() && e.drop_last()[k] == '/';
                assert(e[k] == '/');
            }
        }
        assert((x + e).last() == e.last());
        lemma_last_slash_append(x, e.drop_last());
    } else {
        assert(x + e =~= x);
    }
}

/// The last component of the path of entry `name` inside `parent` is `name`.
pub proof fn lemma_last_component_join(parent: Seq<char>, name: Seq<char>)
    requires
        valid_name(name),
    ensures
        last_component(join_path(parent, name)) == name,
{
    let x = if parent.len() > 0 && parent.last() == '/' {
        parent
    } else {
        parent + seq!['/']
    };
    assert(join_path(parent, name) =~= x + name);
    lemma_last_slash_append(x, name);
    assert(x.len() > 0 && x.last() == '/');
    assert(last_slash(x) == x.len() - 1);
    assert((x + name).subrange(x.len() as int, (x + name).len() as int) =~= name);
}

proof fn lemma_index_of(s: Seq<String>, name: Seq<char>, i: int)
    requires
        0 <= i <= s.len(),
        forall|j: int| 0 <= j < i ==> s[j]@ != name,
        i == s.len() || s[i]@ == name,
    ensures
        index_of(s, name) == i,
    decreases i,
{
    if i > 0 {
        lemma_index_of(s.drop_first(), name, i - 1);
    }
}

/// Whether `a` and `b` hold the same characters.
fn chars_eq(a: &Vec<char>, b: &Vec<char>) -> (r: bool)
    ensures
        r == (a@ == b@),
{
    if a.len() != b.len() {
        return false;
    }
    let mut i: usize = 0;
    while i < a.len()
        invariant
            a.len() == b.len(),
            i <= a.len(),
            forall|j: int| 0 <= j < i ==> a@[j] == b@[j],
        decreases a.len() - i,
    {
        if a[i] != b[i] {
            return false;
        }
        i = i + 1;
    }
    assert(a@ =~= b@);
    true
}

/// Path of the entry `name` inside the directory `parent`.
fn join(parent: &String, name: &String) -> (r: String)
    ensures
        r@ == join_path(parent@, name@),
{
    let p = chars_of(parent.as_str());
    let mut r = parent.clone();
    if !(p.len() > 0 && p[p.len() - 1] == '/') {
        push_char(&mut r, '/');
    }
    r.append(name.as_str());
    r
}

/// The last component of `path`.
fn file_name(path: &String) -> (r: String)
    ensures
        r@ == last_component(path@),
{
    let p = chars_of(path.as_str());
    let mut k: usize = p.len();
    assert(p@.subrange(0, k as int) =~= p@);
    while k > 0 && p[k - 1] != '/'
        invariant
            k <= p.len(),
            p@ == path@,
            last_slash(p@) == last_slash(p@.subrange(0, k as int)),
        decreases k,
    {
        assert(p@.subrange(0, k as int).drop_last() =~= p@.subrange(0, k - 1));
        k = k - 1;
    }
    proof {
        if k > 0 {
            assert(p@.subrange(0, k as int).last() == '/');
        }
        assert(last_slash(p@) == k - 1);
    }
    let mut v: Vec<char> = Vec::new();
    let mut i: usize = k;
    while i < p.len()
        invariant
            k <= i <= p.len(),
            v@ == p@.subrange(k as int, i as int),
        decreases p.len() - i,
    {
        v.push(p[i]);
        i = i + 1;
        assert(v@ =~= p@.subrange(k as int, i as int));
    }
    string_of(v.as_slice())
}

/// Whether `path` is a canonical absolute path, as a browser starts in.
pub fn is_canonical(path: &str) -> (r: bool)
    ensures
        r == canonical_path(path@),
{
    let p = chars_of(path);
    if p.len() == 0 || p[0] != '/' {
        return false;
    }
    if p.len() > 1 && p[p.len() - 1] == '/' {
        return false;
    }
    let mut i: usize = 0;
    while i + 1 < p.len()
        invariant
            p@ == path@,
            i < p.len(),
            forall|j: int| 0 <= j < i ==> !(#[trigger] p@[j] == '/' && p@[j + 1] == '/'),
        decreases p.len() - i,
    {
        if p[i] == '/' && p[i + 1] == '/' {
            assert(p@[i as int] == '/' && p@[i + 1] == '/');
            return false;
        }
        i = i + 1;
    }
    true
}

/// Whether `name` can name an entry of a directory.
fn is_valid_name(name: &String) -> (r: bool)
    ensures
        r == valid_name(name@),
{
    let v = chars_of(name.as_str());
    if v.len() == 0 {
        return false;
    }
    let mut i: usize = 0;
    while i < v.len()
        invariant
            i <= v.len(),
            v@ == name@,
            forall|j: int| 0 <= j < i ==> v@[j] != '/',
        decreases v.len() - i,
    {
        if v[i] == '/' {
            assert(v@[i as int] == '/');
            return false;
        }
        i = i + 1;
    }
    assert(!v@.contains('/'));
    true
}

/// Index of the first entry of `content` called `name`, or its length.
fn find_name(content: &Vec<String>, name: &String) -> (i: usize)
    ensures
        i == index_of(content@, name@),
        i <= content.len(),
{
    let mut i: usize = 0;
    while i < content.len()
        invariant
            i <= content.len(),
            forall|j: int| 0 <= j < i ==> content@[j]@ != name@,
        decreases content.len() - i,
    {
        if content[i].eq(name) {
            proof {
                lemma_index_of(content@, name@, i as int);
            }
            return i;
        }
        i = i + 1;
    }
    proof {
        lemma_index_of(content@, name@, i as int);
    }
    i
}

/// Whether `n` keeps from `b` all that moving between directories leaves
/// alone: the preview, the start path, the search state and the height.
pub open spec fn same_rest(b: Browser, n: Browser) -> bool {
    &&& n.preview == b.preview
    &&& n.original_path == b.original_path
    &&& n.mode == b.mode
    &&& n.search_txt == b.search_txt
    &&& n.search_history == b.search_history
    &&& n.search_history_index == b.search_history_index
    &&& n.trunc == b.trunc
    &&& n.input_cursor_pos == b.input_cursor_pos
    &&& n.rev_search == b.rev_search
    &&& n.height == b.height
}

/// Descend: from `b` into the entry under the cursor, whose listing is
/// `entries`, where that entry is a directory (`is_dir`); `n` is the result.
pub open spec fn right_post(b: Browser, n: Browser, is_dir: bool, entries: Seq<String>) -> bool {
    if b.content.len() == 0 || !is_dir || !valid_name(b.content[b.cursor as int]@) {
        n == b
    } else {
        &&& n.past_dir@ == b.past_dir@.push(b.current_path)
        &&& n.past_cursor@ == b.past_cursor@.push(b.cursor)
        &&& n.past_window_start@ == b.past_window_start@.push(b.window_start)
        &&& n.current_path@ == join_path(b.current_path@, b.content[b.cursor as int]@)
        &&& listing_of(n.content@, entries)
        &&& n.cursor == 0
        &&& n.window_start == 0
        &&& same_rest(b, n)
    }
}

/// Ascend: from `b` to the directory on top of the ancestor stack, whose
/// listing is `entries`; `n` is the result. The cursor goes to the directory
/// just left where the listing has it, else back to where it was saved when
/// that still fits, else to the top.
pub open spec fn left_post(b: Browser, n: Browser, entries: Seq<String>) -> bool {
    if b.past_dir.len() == 0 {
        n == b
    } else {
        let k = b.past_dir.len() - 1;
        let i = index_of(n.content@, last_component(b.current_path@));
        let saved_cursor = b.past_cursor[k];
        let saved_start = b.past_window_start[k];
        let saved_fits = n.cursor_ok(saved_cursor as int) && saved_start <= saved_cursor;
        &&& n.current_path == b.past_dir[k]
        &&& n.past_dir@ == b.past_dir@.drop_last()
        &&& n.past_cursor@ == b.past_cursor@.drop_last()
        &&& n.past_window_start@ == b.past_window_start@.drop_last()
        &&& listing_of(n.content@, entries)
        &&& n.cursor == if i < n.content.len() {
            i
        } else if saved_fits {
            saved_cursor as int
        } else {
            0
        }
        &&& n.window_start == if i < n.content.len() {
            centered_start(i, b.height as int)
        } else if saved_fits {
            saved_start as int
        } else {
            0
        }
        &&& same_rest(b, n)
    }
}

/// Descending into an entry and ascending again comes back to the directory
/// left, with the cursor on the entry descended into wherever the listing read
/// again holds it.
pub proof fn lemma_descend_ascend(
    b0: Browser,
    b1: Browser,
    b2: Browser,
    inner: Seq<String>,
    outer: Seq<String>,
)
    requires
        b0.wf(),
        b0.content.len() > 0,
        valid_name(b0.content[b0.cursor as int]@),
        right_post(b0, b1, true, inner),
        left_post(b1, b2, outer),
    ensures
        b2.current_path == b0.current_path,
        b2.past_dir@ == b0.past_dir@,
        b2.past_cursor@ == b0.past_cursor@,
        b2.past_window_start@ == b0.past_window_start@,
        ({
            let e = b0.content[b0.cursor as int]@;
            (exists|j: int| 0 <= j < b2.content.len() && b2.content[j]@ == e) ==> {
                &&& b2.content[b2.cursor as int]@ == e
                &&& forall|j: int| 0 <= j < b2.cursor ==> b2.content[j]@ != e
                &&& b2.window_start == centered_start(b2.cursor as int, b0.height as int)
            }
        }),
{
    let e = b0.content[b0.cursor as int]@;
    lemma_last_component_join(b0.current_path@, e);
    assert(b1.past_dir@.drop_last() =~= b0.past_dir@);
    assert(b1.past_cursor@.drop_last() =~= b0.past_cursor@);
    assert(b1.past_window_start@.drop_last() =~= b0.past_window_start@);
    if exists|j: int| 0 <= j < b2.content.len() && b2.content[j]@ == e {
        let j = choose|j: int| 0 <= j < b2.content.len() && b2.content[j]@ == e;
        lemma_index_of_found(b2.content@, e, j);
    }
}

proof fn lemma_index_of_found(s: Seq<String>, name: Seq<char>, j: int)
    requires
        0 <= j < s.len(),
        s[j]@ == name,
    ensures
        0 <= index_of(s, name) <= j,
        s[index_of(s, name)]@ == name,
        forall|k: int| 0 <= k < index_of(s, name) ==> s[k]@ != name,
    decreases j,
{
    if s[0]@ != name {
        lemma_index_of_found(s.drop_first(), name, j - 1);
        assert(s[index_of(s, name)] == s.drop_first()[index_of(s.drop_first(), name)]);
        assert forall|k: int| 0 <= k < index_of(s, name) implies s[k]@ != name by {
            if k > 0 {
                assert(s[k] == s.drop_first()[k - 1]);
            }
        }
    }
}

/// For each entry of `content`, whether the search pattern finds it.
pub open spec fn entry_hits(content: Seq<String>, pattern: Seq<char>, case_insensitive: bool) -> Seq<bool> {
    Seq::new(content.len(), |i: int| regex_finds(pattern, case_insensitive, content[i]@))
}

/// Whether scans run backward: asked for (`rev`), flipped in a backward search.
pub open spec fn scan_backward(b: Browser, rev: bool) -> bool {
    rev != (b.mode == Mode::RevSearch || b.rev_search)
}

/// Find the next match: from `b`, scanning from row `start` (backward where
/// `scan_backward`), the cursor goes to the first row whose entry the search
/// pattern finds, with the viewport centred on it; `n` is the result.
pub open spec fn next_match_post(b: Browser, n: Browser, start: int, rev: bool) -> bool {
    if b.search_txt.len() == 0 || b.content.len() == 0 {
        n == b
    } else {
        let (pattern, ci) = search_pattern(b.search_txt@);
        let hits = entry_hits(b.content@, pattern, ci);
        let k = first_scan(hits, start, scan_backward(b, rev), 0);
        &&& b.same_but_view(&n)
        &&& if k < b.content.len() {
            &&& n.cursor == scan_pos(start, k, b.content.len() as int, scan_backward(b, rev))
            &&& n.window_start == centered_start(n.cursor as int, b.height as int)
        } else {
            n.cursor == b.cursor && n.window_start == b.window_start
        }
    }
}

/// The history after committing search text `txt` while entry `idx` is
/// browsed: an empty text is not kept; a text equal to the entry browsed
/// replaces it; the oldest entry goes where the history is full.
pub open spec fn commit(hist: Seq<Seq<char>>, idx: int, txt: Seq<char>) -> Seq<Seq<char>> {
    if txt.len() == 0 {
        hist
    } else {
        let h1 = if 0 <= idx < hist.len() && hist[idx] == txt {
            hist.remove(idx)
        } else {
            hist
        };
        let h2 = if h1.len() >= SEARCH_HISTORY_LEN {
            h1.drop_first()
        } else {
            h1
        };
        h2.push(txt)
    }
}

/// The history after submitting each of `subs` in turn, starting empty and
/// browsing no entry.
pub open spec fn submit_all(subs: Seq<Seq<char>>) -> Seq<Seq<char>>
    decreases subs.len(),
{
    if subs.len() == 0 {
        Seq::empty()
    } else {
        let h = submit_all(subs.drop_last());
        commit(h, h.len() as int, subs.last())
    }
}

proof fn lemma_submit_all_window(subs: Seq<Seq<char>>)
    requires
        forall|i: int| 0 <= i < subs.len() ==> #[trigger] subs[i].len() > 0,
        forall|i: int, j: int| 0 <= i < j < subs.len() ==> subs[i] != subs[j],
    ensures
        submit_all(subs) == subs.subrange(
            if subs.len() > SEARCH_HISTORY_LEN { subs.len() - SEARCH_HISTORY_LEN } else { 0 },
            subs.len() as int,
        ),
    decreases subs.len(),
{
    if subs.len() > 0 {
        let s0 = subs.drop_last();
        assert forall|i: int| 0 <= i < s0.len() implies #[trigger] s0[i].len() > 0 by {
            assert(s0[i] == subs[i]);
        }
        lemma_submit_all_window(s0);
        assert(subs.last().len() > 0);
        let lo = if subs.len() > SEARCH_HISTORY_LEN { subs.len() - SEARCH_HISTORY_LEN } else { 0 };
        let lo0 = if s0.len() > SEARCH_HISTORY_LEN { s0.len() - SEARCH_HISTORY_LEN } else { 0 };
        let h = submit_all(s0);
        if h.len() >= SEARCH_HISTORY_LEN {
            assert(h.drop_first().push(subs.last()) =~= subs.subrange(lo, subs.len() as int));
        } else {
            assert(h.push(subs.last()) =~= subs.subrange(lo, subs.len() as int));
        }
    }
}

/// After more than `SEARCH_HISTORY_LEN` distinct non-empty search texts are
/// submitted, the history is full and the oldest text of the last
/// `SEARCH_HISTORY_LEN + 1` is gone from it.
pub proof fn lemma_history_bound(subs: Seq<Seq<char>>)
    requires
        subs.len() > SEARCH_HISTORY_LEN,
        forall|i: int| 0 <= i < subs.len() ==> #[trigger] subs[i].len() > 0,
        forall|i: int, j: int| 0 <= i < j < subs.len() ==> subs[i] != subs[j],
    ensures
        submit_all(subs).len() == SEARCH_HISTORY_LEN,
        !submit_all(subs).contains(subs[subs.len() - SEARCH_HISTORY_LEN - 1]),
{
    lemma_submit_all_window(subs);
    let h = submit_all(subs);
    let lo = subs.len() - SEARCH_HISTORY_LEN;
    if h.contains(subs[lo - 1]) {
        let k = choose|k: int| 0 <= k < h.len() && h[k] == subs[lo - 1];
        assert(h[k] == subs[lo + k]);
    }
}

/// Search text `t` with the characters `c` put in at position `p`.
pub open spec fn insert_at(t: Seq<char>, p: int, c: Seq<char>) -> Seq<char> {
    t.subrange(0, p) + c + t.subrange(p, t.len() as int)
}

/// The characters of a key, where it is typed text.
pub open spec fn typed_view(chars: Option<Vec<char>>) -> Option<Seq<char>> {
    match chars {
        Some(c) => Some(c@),
        None => None,
    }
}

/// The first character typed, where the key is typed text.
pub open spec fn typed(chars: Option<Seq<char>>, op: Op) -> Option<u32> {
    if op == Op::Noop && chars is Some && chars->0.len() > 0 {
        Some(chars->0[0] as u32)
    } else {
        None
    }
}

/// Whether `n` keeps all of `b` but the search text, the edit position, the
/// history and its index, and the mode.
pub open spec fn same_but_search(b: Browser, n: Browser) -> bool {
    &&& n.cursor == b.cursor
    &&& n.window_start == b.window_start
    &&& n.content == b.content
    &&& n.preview == b.preview
    &&& n.past_dir == b.past_dir
    &&& n.past_cursor == b.past_cursor
    &&& n.past_window_start == b.past_window_start
    &&& n.current_path == b.current_path
    &&& n.original_path == b.original_path
    &&& n.trunc == b.trunc
    &&& n.rev_search == b.rev_search
    &&& n.height == b.height
}

/// One key while a search is typed, from `b` (and the canvas `cb`) to `n`
/// (and `cn`): typed text (`chars`) or an arrow (`op`). `run` tells whether
/// the match is run again after it. Control characters are ignored but for
/// Escape (back to normal mode, the text dropped) and Enter (the text
/// committed to the history, back to normal mode); DEL deletes before the
/// edit position; other text goes in at it; Up and Down page through the
/// history where the text is empty or the history is being browsed; Left and
/// Right move the edit position.
pub open spec fn edit_post(
    b: Browser,
    n: Browser,
    cb: Canvas,
    cn: Canvas,
    chars: Option<Seq<char>>,
    op: Op,
    run: bool,
) -> bool {
    let pos = b.input_cursor_pos as int;
    let txt = b.search_txt@;
    let len = b.search_history.len() as int;
    let idx = b.search_history_index as int;
    &&& cn.height == cb.height
    &&& cn.width == cb.width
    &&& cn.pixels == cb.pixels
    &&& cn.theme == cb.theme
    &&& cn.utf8_table == cb.utf8_table
    &&& same_but_search(b, n)
    &&& match typed(chars, op) {
        Some(f) => if f < 32 && f != 27 && f != 10 {
            n == b && cn == cb && !run
        } else if f == 27 {
            &&& n.mode == Mode::Normal
            &&& n.search_txt@ == Seq::<char>::empty()
            &&& n.input_cursor_pos == 0
            &&& n.search_history == b.search_history
            &&& n.search_history_index == len
            &&& cn.bottom_start == 0 && !cn.add_algnmt
            &&& !run
        } else if f == 10 {
            &&& n.mode == Mode::Normal
            &&& n.search_txt == b.search_txt
            &&& n.input_cursor_pos == 0
            &&& n.history() == commit(b.history(), idx, txt)
            &&& n.search_history_index == if txt.len() == 0 {
                idx
            } else {
                n.search_history.len() as int
            }
            &&& cn.bottom_start == 0 && !cn.add_algnmt
            &&& !run
        } else if f == 127 {
            &&& n.mode == b.mode
            &&& n.search_history == b.search_history
            &&& n.search_history_index == b.search_history_index
            &&& cn.add_algnmt == cb.add_algnmt
            &&& if pos >= 1 {
                &&& n.search_txt@ == txt.remove(pos - 1)
                &&& n.input_cursor_pos == pos - 1
                &&& cn.bottom_start == if cb.bottom_start > 0 {
                    cb.bottom_start - 1
                } else {
                    0
                }
            } else {
                n.search_txt == b.search_txt && n.input_cursor_pos == pos && cn.bottom_start
                    == cb.bottom_start
            }
            &&& run
        } else {
            &&& n.mode == b.mode
            &&& n.search_history == b.search_history
            &&& n.search_history_index == b.search_history_index
            &&& cn == cb
            &&& if txt.len() + chars->0.len() < usize::MAX / 4 {
                n.search_txt@ == insert_at(txt, pos, chars->0) && n.input_cursor_pos == pos
                    + chars->0.len()
            } else {
                n.search_txt == b.search_txt && n.input_cursor_pos == pos
            }
            &&& run
        },
        None => {
            &&& n.mode == b.mode
            &&& n.search_history == b.search_history
            &&& cn == cb
            &&& run
            &&& if (op == Op::Up || op == Op::Down) && ((idx == len && txt.len() == 0) || idx < len) {
                let i = if op == Op::Up {
                    if idx > 0 {
                        idx - 1
                    } else {
                        idx
                    }
                } else if idx < len {
                    idx + 1
                } else {
                    idx
                };
                &&& n.search_history_index == i
                &&& n.search_txt@ == if i < len {
                    b.history()[i]
                } else {
                    Seq::empty()
                }
                &&& n.input_cursor_pos == n.search_txt.len()
            } else if op == Op::Left {
                &&& n.search_history_index == idx
                &&& n.search_txt == b.search_txt
                &&& n.input_cursor_pos == if pos > 0 {
                    pos - 1
                } else {
                    pos
                }
            } else if op == Op::Right {
                &&& n.search_history_index == idx
                &&& n.search_txt == b.search_txt
                &&& n.input_cursor_pos == if pos + 1 <= txt.len() {
                    pos + 1
                } else {
                    pos
                }
            } else {
                &&& n.search_history_index == idx
                &&& n.search_txt == b.search_txt
                &&& n.input_cursor_pos == pos
            }
        },
    }
}

/// The ancestors of path `p` found in its first `k` characters: the path up
/// to each `/` but a last one, the root for a leading one.
pub open spec fn ancestors_upto(p: Seq<char>, k: int) -> Seq<Seq<char>>
    decreases k,
{
    if k <= 0 || k > p.len() {
        Seq::empty()
    } else {
        let a = ancestors_upto(p, k - 1);
        if p[k - 1] == '/' && k < p.len() {
            a.push(p.subrange(0, if k - 1 == 0 { 1 } else { k - 1 }))
        } else {
            a
        }
    }
}

/// The ancestors of path `p`, from the root down.
pub open spec fn ancestors(p: Seq<char>) -> Seq<Seq<char>> {
    ancestors_upto(p, p.len() as int)
}

/// What the driver does outside the library after a key in normal mode.
#[derive(PartialEq, Eq, Structural, Clone, Copy, Debug)]
pub enum Request {
    /// Nothing: the key was handled.
    Stay,
    /// Descend: find out whether the entry under the cursor is a directory,
    /// read it, and call `right`.
    Descend,
    /// Ascend: read the parent directory and call `left`.
    Ascend,
    /// Leave, handing back the current directory.
    ExitCurDir,
    /// Leave into the directory under the cursor, or open the file there with
    /// the opener bound to `o`.
    ExitCursorO,
    /// The same with the opener bound to Enter.
    ExitCursorEnter,
    /// Leave, handing back the directory the browser started in.
    Quit,
}

/// The request that key `op` makes in normal mode.
pub open spec fn request_of(op: Op) -> Request {
    match op {
        Op::Left => Request::Ascend,
        Op::Right => Request::Descend,
        Op::Exit => Request::ExitCurDir,
        Op::ExitCursorO => Request::ExitCursorO,
        Op::ExitCursorEnter => Request::ExitCursorEnter,
        Op::Quit => Request::Quit,
        _ => Request::Stay,
    }
}

/// Center-on-index: from `b`, the cursor on row `index` and the viewport
/// centred on it; `n` is the result.
pub open spec fn centered_post(b: Browser, n: Browser, index: int) -> bool {
    &&& b.same_but_view(&n)
    &&& n.cursor == index
    &&& n.window_start == centered_start(index, b.height as int)
}

/// Top: from `b`, cursor and viewport on the first row; `n` is the result.
pub open spec fn top_post(b: Browser, n: Browser) -> bool {
    &&& b.same_but_view(&n)
    &&& n.cursor == 0
    &&& n.window_start == 0
}

/// Top twice leaves the cursor and the viewport at the first row both times,
/// and centring on the same row twice gives the same viewport: the second
/// call changes nothing.
pub proof fn lemma_view_idempotent(b0: Browser, b1: Browser, b2: Browser, c1: Browser, c2: Browser, index: int)
    requires
        top_post(b0, b1),
        top_post(b1, b2),
        centered_post(b0, c1, index),
        centered_post(c1, c2, index),
    ensures
        b1.cursor == 0 && b1.window_start == 0,
        b2.cursor == 0 && b2.window_start == 0,
        b2 == b1,
        c2.window_start == c1.window_start,
        c2 == c1,
{
}

/// Bottom: from `b`, the cursor on the last row with the viewport centred;
/// nothing on an empty listing.
pub open spec fn bottom_post(b: Browser, n: Browser) -> bool {
    &&& b.same_but_view(&n)
    &&& b.content.len() == 0 ==> n == b
    &&& b.content.len() > 0 ==> n.cursor == b.content.len() - 1 && n.window_start
        == centered_start(n.cursor as int, b.height as int)
}

/// Up: from `b`, one row up, stopping at the first; the viewport follows by
/// one row when the cursor leaves it at the top. Nothing on an empty listing.
pub open spec fn up_post(b: Browser, n: Browser) -> bool {
    &&& b.same_but_view(&n)
    &&& b.content.len() == 0 ==> n == b
    &&& b.content.len() > 0 ==> {
        &&& n.cursor == if b.cursor > 0 {
            b.cursor - 1
        } else {
            0
        }
        &&& n.window_start == if n.cursor < b.window_start {
            b.window_start - 1
        } else {
            b.window_start as int
        }
    }
}

/// Down: from `b`, one row down, stopping at the last; the viewport follows
/// by one row when the cursor reaches its bottom. Nothing on an empty listing.
pub open spec fn down_post(b: Browser, n: Browser) -> bool {
    &&& b.same_but_view(&n)
    &&& b.content.len() == 0 ==> n == b
    &&& b.content.len() > 0 ==> {
        &&& n.cursor == if b.cursor + 1 < b.content.len() {
            b.cursor + 1
        } else {
            b.content.len() - 1
        }
        &&& n.window_start == if n.cursor >= b.window_start
            + b.height && b.window_start < n.cursor {
            b.window_start + 1
        } else {
            b.window_start as int
        }
    }
}

/// Page up: from `b`, half a screen up, stopping at the first row, the
/// viewport centred. Nothing on an empty listing.
pub open spec fn pageup_post(b: Browser, n: Browser) -> bool {
    &&& b.same_but_view(&n)
    &&& b.content.len() == 0 ==> n == b
    &&& b.content.len() > 0 ==> {
        &&& n.cursor == if b.cursor < b.height / 2 {
            0
        } else {
            b.cursor - b.height / 2
        }
        &&& n.window_start == centered_start(
            n.cursor as int,
            b.height as int,
        )
    }
}

/// Page down: from `b`, half a screen down, stopping at the last row, the
/// viewport centred. Nothing on an empty listing.
pub open spec fn pagedown_post(b: Browser, n: Browser) -> bool {
    &&& b.same_but_view(&n)
    &&& b.content.len() == 0 ==> n == b
    &&& b.content.len() > 0 ==> {
        &&& n.cursor == if b.cursor + b.height / 2
            >= b.content.len() {
            b.content.len() - 1
        } else {
            b.cursor + b.height / 2
        }
        &&& n.window_start == centered_start(
            n.cursor as int,
            b.height as int,
        )
    }
}

/// The history after submitting each of `subs` in turn to history `h`,
/// browsing no entry.
pub open spec fn submit_from(h: Seq<Seq<char>>, subs: Seq<Seq<char>>) -> Seq<Seq<char>>
    decreases subs.len(),
{
    if subs.len() == 0 {
        h
    } else {
        let g = submit_from(h, subs.drop_last());
        commit(g, g.len() as int, subs.last())
    }
}

/// From any history of at most `SEARCH_HISTORY_LEN` entries, each non-empty
/// search text submitted while no entry is browsed adds one entry until the
/// history is full; after more than `SEARCH_HISTORY_LEN` of them it holds
/// exactly `SEARCH_HISTORY_LEN`.
pub proof fn lemma_history_len(h: Seq<Seq<char>>, subs: Seq<Seq<char>>)
    requires
        h.len() <= SEARCH_HISTORY_LEN,
        forall|i: int| 0 <= i < subs.len() ==> #[trigger] subs[i].len() > 0,
    ensures
        submit_from(h, subs).len() == if h.len() + subs.len() < SEARCH_HISTORY_LEN {
            (h.len() + subs.len()) as int
        } else {
            SEARCH_HISTORY_LEN as int
        },
        subs.len() > SEARCH_HISTORY_LEN ==> submit_from(h, subs).len() == SEARCH_HISTORY_LEN,
    decreases subs.len(),
{
    if subs.len() > 0 {
        let s0 = subs.drop_last();
        assert forall|i: int| 0 <= i < s0.len() implies #[trigger] s0[i].len() > 0 by {
            assert(s0[i] == subs[i]);
        }
        lemma_history_len(h, s0);
        assert(subs.last().len() > 0);
    }
}

/// Rows of the listing that a terminal of `term_height` rows shows: all but
/// the status line.
pub fn get_height(term_height: usize) -> (h: usize)
    ensures
        h == if term_height > 0 {
            term_height - 1
        } else {
            0
        },
{
    if term_height > 0 {
        term_height - 1
    } else {
        term_height
    }
}

/// Directory browser state.
pub struct Browser {
    /// Index of the selected row of `content`.
    pub cursor: usize,
    /// First row of `content` that is shown.
    pub window_start: usize,
    /// Entry names of the current directory, sorted case-insensitively.
    pub content: Vec<String>,
    /// Entry names of the directory under the cursor.
    pub preview: Vec<String>,
    /// Paths of the ancestors of `current_path`, from the root down.
    pub past_dir: Vec<String>,
    /// Cursor saved with each ancestor.
    pub past_cursor: Vec<usize>,
    /// Viewport start saved with each ancestor.
    pub past_window_start: Vec<usize>,
    pub current_path: String,
    /// Path handed back when the user quits without choosing.
    pub original_path: String,
    pub mode: Mode,
    /// Search text being typed.
    pub search_txt: Vec<char>,
    /// Submitted search texts, oldest first.
    pub search_history: Vec<Vec<char>>,
    /// Entry of the history being browsed; its length when none is.
    pub search_history_index: usize,
    /// Bytes of an incomplete character left over from the last read.
    pub trunc: Vec<u8>,
    /// Insertion point in `search_txt`.
    pub input_cursor_pos: usize,
    /// Whether the last search started was a backward one.
    pub rev_search: bool,
    /// Number of listing rows that the screen shows.
    pub height: usize,
}

impl Browser {
    pub open spec fn wf(&self) -> bool {
        &&& if self.content.len() == 0 {
            self.cursor == 0
        } else {
            self.cursor < self.content.len()
        }
        &&& self.window_start <= self.cursor
        &&& canonical_path(self.current_path@)
        &&& self.past_dir@.map_values(|d: String| d@) == ancestors(self.current_path@)
        &&& self.past_cursor.len() == self.past_dir.len()
        &&& self.past_window_start.len() == self.past_dir.len()
        &&& self.input_cursor_pos <= self.search_txt.len()
        &&& self.search_txt.len() < usize::MAX / 4
        &&& self.search_history.len() <= SEARCH_HISTORY_LEN
        &&& self.search_history_index <= self.search_history.len()
        &&& forall|i: int|
            0 <= i < self.search_history.len() ==> #[trigger] self.search_history[i].len()
                < usize::MAX / 4
    }

    /// Whether `other` differs from `self` at most in the cursor and the
    /// viewport start.
    pub open spec fn same_but_view(&self, other: &Browser) -> bool {
        &&& other.content == self.content
        &&& other.preview == self.preview
        &&& other.past_dir == self.past_dir
        &&& other.past_cursor == self.past_cursor
        &&& other.past_window_start == self.past_window_start
        &&& other.current_path == self.current_path
        &&& other.original_path == self.original_path
        &&& other.mode == self.mode
        &&& other.search_txt == self.search_txt
        &&& other.search_history == self.search_history
        &&& other.search_history_index == self.search_history_index
        &&& other.trunc == self.trunc
        &&& other.input_cursor_pos == self.input_cursor_pos
        &&& other.rev_search == self.rev_search
        &&& other.height == self.height
    }

    /// Whether `index` is a place for the cursor: a row of the listing, or 0
    /// when the listing is empty.
    pub open spec fn cursor_ok(&self, index: int) -> bool {
        if self.content.len() == 0 {
            index == 0
        } else {
            0 <= index < self.content.len()
        }
    }

    /// Put the cursor on `index` with the viewport centred on it.
    pub fn set_cursor_pos_centered(&mut self, index: usize)
        requires
            old(self).wf(),
            old(self).cursor_ok(index as int),
        ensures
            final(self).wf(),
            centered_post(*old(self), *final(self), index as int),
    {
        let h = self.height;
        self.cursor = index;
        self.window_start = if index > h / 2 {
            index - h / 2
        } else {
            0
        };
    }

    /// Cursor on the first row, viewport at the top.
    pub fn top(&mut self)
        requires
            old(self).wf(),
        ensures
            final(self).wf(),
            top_post(*old(self), *final(self)),
    {
        self.cursor = 0;
        self.window_start = 0;
    }

    /// Cursor on the last row, viewport centred on it; nothing happens on an
    /// empty listing.
    pub fn bottom(&mut self)
        requires
            old(self).wf(),
        ensures
            final(self).wf(),
            bottom_post(*old(self), *final(self)),
    {
        if self.content.len() == 0 {
            return;
        }
        self.set_cursor_pos_centered(self.content.len() - 1);
    }

    /// One row up, stopping at the first; the viewport follows by one row
    /// when the cursor leaves it at the top.
    pub fn up(&mut self)
        requires
            old(self).wf(),
        ensures
            final(self).wf(),
            up_post(*old(self), *final(self)),
    {
        if self.content.len() == 0 {
            return;
        }
        self.cursor = if self.cursor > 0 {
            self.cursor - 1
        } else {
            0
        };
        if self.cursor < self.window_start {
            self.window_start = self.window_start - 1;
        }
    }

    /// One row down, stopping at the last; the viewport follows by one row
    /// when the cursor reaches its bottom.
    pub fn down(&mut self)
        requires
            old(self).wf(),
        ensures
            final(self).wf(),
            down_post(*old(self), *final(self)),
    {
        if self.content.len() == 0 {
            return;
        }
        let max_len = self.content.len();
        self.cursor = if self.cursor + 1 < max_len {
            self.cursor + 1
        } else {
            max_len - 1
        };
        if self.cursor - self.window_start >= self.height && self.window_start < self.cursor {
            self.window_start = self.window_start + 1;
        }
    }

    /// Half a screen up, stopping at the first row, viewport centred.
    pub fn pageup(&mut self)
        requires
            old(self).wf(),
        ensures
            final(self).wf(),
            pageup_post(*old(self), *final(self)),
    {
        if self.content.len() == 0 {
            return;
        }
        let half_page = self.height / 2;
        let pos = if self.cursor < half_page {
            0
        } else {
            self.cursor - half_page
        };
        self.set_cursor_pos_centered(pos);
    }

    /// Half a screen down, stopping at the last row, viewport centred.
    pub fn pagedown(&mut self)
        requires
            old(self).wf(),
        ensures
            final(self).wf(),
            pagedown_post(*old(self), *final(self)),
    {
        if self.content.len() == 0 {
            return;
        }
        let half_page = self.height / 2;
        let pos = if half_page >= self.content.len() - self.cursor {
            self.content.len() - 1
        } else {
            self.cursor + half_page
        };
        self.set_cursor_pos_centered(pos);
    }

    /// Take `entries` as the listing of the current directory, sorted, with
    /// the cursor and the viewport at the top.
    pub fn read_content(&mut self, entries: Vec<String>)
        requires
            old(self).wf(),
        ensures
            final(self).wf(),
            listing_of(final(self).content@, entries@),
            final(self).cursor == 0,
            final(self).window_start == 0,
            final(self).past_dir == old(self).past_dir,
            final(self).past_cursor == old(self).past_cursor,
            final(self).past_window_start == old(self).past_window_start,
            final(self).current_path == old(self).current_path,
            same_rest(*old(self), *final(self)),
    {
        self.content = sort_names(entries);
        self.cursor = 0;
        self.window_start = 0;
    }

    /// Take `entries` as the listing of the directory under the cursor, sorted.
    pub fn set_preview(&mut self, entries: Vec<String>)
        requires
            old(self).wf(),
        ensures
            final(self).wf(),
            listing_of(final(self).preview@, entries@),
            final(self).content == old(self).content,
            final(self).cursor == old(self).cursor,
            final(self).window_start == old(self).window_start,
            final(self).current_path == old(self).current_path,
            final(self).mode == old(self).mode,
            final(self).search_txt == old(self).search_txt,
            final(self).input_cursor_pos == old(self).input_cursor_pos,
            final(self).past_dir == old(self).past_dir,
            final(self).past_cursor == old(self).past_cursor,
            final(self).past_window_start == old(self).past_window_start,
            final(self).original_path == old(self).original_path,
            final(self).search_history == old(self).search_history,
            final(self).search_history_index == old(self).search_history_index,
            final(self).trunc == old(self).trunc,
            final(self).rev_search == old(self).rev_search,
            final(self).height == old(self).height,
    {
        self.preview = sort_names(entries);
    }

    /// Path of the entry under the cursor; none in an empty listing.
    pub fn path_under_cursor(&self) -> (r: Option<String>)
        requires
            self.wf(),
        ensures
            self.content.len() == 0 ==> r is None,
            self.content.len() > 0 ==> r is Some && r->0@ == join_path(
                self.current_path@,
                self.content[self.cursor as int]@,
            ),
    {
        if self.content.len() == 0 {
            None
        } else {
            Some(join(&self.current_path, &self.content[self.cursor]))
        }
    }

    /// Path of the directory that Ascend goes to; none at the root.
    pub fn parent_path(&self) -> (r: Option<String>)
        ensures
            self.past_dir.len() == 0 ==> r is None,
            self.past_dir.len() > 0 ==> r == Some(self.past_dir[self.past_dir.len() - 1]),
    {
        if self.past_dir.len() == 0 {
            None
        } else {
            Some(self.past_dir[self.past_dir.len() - 1].clone())
        }
    }

    /// Descend into the entry under the cursor when it is a directory
    /// (`is_dir`), whose listing is `entries`: the current directory with the
    /// cursor and viewport goes on the ancestor stack.
    pub fn right(&mut self, is_dir: bool, entries: Vec<String>)
        requires
            old(self).wf(),
        ensures
            final(self).wf(),
            right_post(*old(self), *final(self), is_dir, entries@),
    {
        if self.content.len() == 0 || !is_dir {
            return;
        }
        if !is_valid_name(&self.content[self.cursor]) {
            return;
        }
        let dir_under_cursor = join(&self.current_path, &self.content[self.cursor]);
        proof {
            lemma_ancestors_join(self.current_path@, self.content[self.cursor as int]@);
        }
        let ghost dirs = self.past_dir@;
        self.past_dir.push(self.current_path.clone());
        assert(self.past_dir@.map_values(|d: String| d@) =~= dirs.map_values(|d: String| d@).push(
            old(self).current_path@,
        ));
        self.past_cursor.push(self.cursor);
        self.past_window_start.push(self.window_start);
        self.current_path = dir_under_cursor;
        self.read_content(entries);
    }

    /// Ascend to the directory on top of the ancestor stack, whose listing is
    /// `entries`, and put the cursor on the directory just left; nothing
    /// happens at the root.
    pub fn left(&mut self, entries: Vec<String>)
        requires
            old(self).wf(),
        ensures
            final(self).wf(),
            left_post(*old(self), *final(self), entries@),
    {
        if self.past_dir.len() == 0 {
            return;
        }
        let child = file_name(&self.current_path);
        proof {
            assert(self.past_dir@.map_values(|d: String| d@).len() == self.past_dir.len());
            lemma_ancestors_parent(self.current_path@);
        }
        let ghost dirs = self.past_dir@;
        let parent = self.past_dir.pop();
        assert(self.past_dir@.map_values(|d: String| d@) =~= dirs.map_values(|d: String| d@).drop_last());
        let saved_cursor = self.past_cursor.pop();
        let saved_start = self.past_window_start.pop();
        match (parent, saved_cursor, saved_start) {
            (Some(parent), Some(saved_cursor), Some(saved_start)) => {
                self.current_path = parent;
                self.read_content(entries);
                let index = find_name(&self.content, &child);
                if index < self.content.len() {
                    self.set_cursor_pos_centered(index);
                } else if (if self.content.len() == 0 {
                    saved_cursor == 0
                } else {
                    saved_cursor < self.content.len()
                }) && saved_start <= saved_cursor {
                    self.cursor = saved_cursor;
                    self.window_start = saved_start;
                }
            },
            _ => {},
        }
    }

    /// The search history as character sequences, oldest first.
    pub open spec fn history(&self) -> Seq<Seq<char>> {
        self.search_history@.map_values(|v: Vec<char>| v@)
    }

    /// Move the cursor to the next entry that the search text finds, scanning
    /// from row `start` forward, or backward where `rev` is set; a backward
    /// search turns the direction round. The scan wraps round the listing
    /// once; where nothing matches the cursor stays.
    pub fn next_match(&mut self, start: usize, rev: bool)
        requires
            old(self).wf(),
            old(self).cursor_ok(start as int),
        ensures
            final(self).wf(),
            next_match_post(*old(self), *final(self), start as int, rev),
            old(self).search_txt.len() > 0 ==> {
                let (pattern, ci) = search_pattern(old(self).search_txt@);
                &&& (exists|i: int|
                    0 <= i < old(self).content.len() && regex_finds(
                        pattern,
                        ci,
                        old(self).content[i]@,
                    )) ==> regex_finds(pattern, ci, final(self).content[final(self).cursor as int]@)
                &&& !(exists|i: int|
                    0 <= i < old(self).content.len() && regex_finds(
                        pattern,
                        ci,
                        old(self).content[i]@,
                    )) ==> final(self).cursor == old(self).cursor
            },
    {
        if self.search_txt.len() == 0 || self.content.len() == 0 {
            return;
        }
        let backward = rev != (self.mode == Mode::RevSearch || self.rev_search);
        let (pattern, ci) = compile_pattern(&self.search_txt);
        let ghost hits_spec = entry_hits(self.content@, pattern@, ci);
        let mut hits: Vec<bool> = Vec::new();
        let mut i: usize = 0;
        while i < self.content.len()
            invariant
                i <= self.content.len(),
                hits@ == hits_spec.subrange(0, i as int),
                hits_spec == entry_hits(self.content@, pattern@, ci),
            decreases self.content.len() - i,
        {
            let h = regex_is_match(pattern.as_str(), ci, self.content[i].as_str());
            hits.push(h);
            i = i + 1;
            assert(hits@ =~= hits_spec.subrange(0, i as int));
        }
        assert(hits@ =~= hits_spec);
        match first_hit(&hits, start, backward) {
            Some(pos) => {
                self.set_cursor_pos_centered(pos);
            },
            None => {},
        }
        proof {
            if exists|i: int| 0 <= i < old(self).content.len() && regex_finds(pattern@, ci, old(self).content[i]@) {
                let i = choose|i: int| 0 <= i < old(self).content.len() && regex_finds(pattern@, ci, old(self).content[i]@);
                assert(hits@[i]);
            }
            if exists|i: int| 0 <= i < hits.len() && hits@[i] {
                let i = choose|i: int| 0 <= i < hits.len() && hits@[i];
                assert(regex_finds(pattern@, ci, old(self).content[i]@));
            }
        }
    }

    /// Commit the search text to the history: an empty text is not kept; a
    /// text equal to the entry being browsed replaces it; the oldest entry
    /// makes room where the history is full. Browsing stops.
    pub fn save_history(&mut self)
        requires
            old(self).wf(),
        ensures
            final(self).wf(),
            final(self).history() == commit(
                old(self).history(),
                old(self).search_history_index as int,
                old(self).search_txt@,
            ),
            final(self).search_history_index == if old(self).search_txt.len() == 0 {
                old(self).search_history_index as int
            } else {
                final(self).search_history.len() as int
            },
            final(self).content == old(self).content,
            final(self).cursor == old(self).cursor,
            final(self).window_start == old(self).window_start,
            final(self).search_txt == old(self).search_txt,
            final(self).input_cursor_pos == old(self).input_cursor_pos,
            final(self).mode == old(self).mode,
            final(self).current_path == old(self).current_path,
            final(self).past_dir == old(self).past_dir,
            final(self).past_cursor == old(self).past_cursor,
            final(self).past_window_start == old(self).past_window_start,
            final(self).preview == old(self).preview,
            final(self).height == old(self).height,
            final(self).rev_search == old(self).rev_search,
            final(self).original_path == old(self).original_path,
            final(self).trunc == old(self).trunc,
    {
        if self.search_txt.len() == 0 {
            return;
        }
        let ghost h0 = self.history();
        let idx = self.search_history_index;
        if idx < self.search_history.len() && chars_eq(&self.search_history[idx], &self.search_txt) {
            self.search_history.remove(idx);
            assert(self.history() =~= h0.remove(idx as int));
        }
        let ghost h1 = self.history();
        if self.search_history.len() >= SEARCH_HISTORY_LEN {
            self.search_history.remove(0);
            assert(self.history() =~= h1.drop_first());
        }
        let ghost h2 = self.history();
        self.search_history.push(self.search_txt.clone());
        assert(self.history() =~= h2.push(old(self).search_txt@));
        self.search_history_index = self.search_history.len();
        proof {
            assert forall|i: int| 0 <= i < self.search_history.len() implies #[trigger] self.search_history[i].len() < usize::MAX / 4 by {
                assert(self.history()[i].len() == self.search_history[i].len());
            }
        }
    }

    /// Apply one key typed while searching (see `edit_post`), and tell whether
    /// the match is to be run again.
    pub fn search_edit(&mut self, canvas: &mut Canvas, chars: Option<Vec<char>>, op: Op) -> (run: bool)
        requires
            old(self).wf(),
        ensures
            final(self).wf(),
            edit_post(
                *old(self),
                *final(self),
                *old(canvas),
                *final(canvas),
                typed_view(chars),
                op,
                run,
            ),
    {
        if op == Op::Noop {
            match chars {
                Some(chars) => {
                    if chars.len() > 0 {
                        return self.type_chars(canvas, chars);
                    }
                },
                None => {},
            }
        }
        let len = self.search_history.len();
        let idx = self.search_history_index;
        if (op == Op::Up || op == Op::Down) && ((idx == len && self.search_txt.len() == 0) || idx < len) {
            if op == Op::Up {
                if idx > 0 {
                    self.search_history_index = idx - 1;
                }
            } else if idx < len {
                self.search_history_index = idx + 1;
            }
            if self.search_history_index < len {
                self.search_txt = self.search_history[self.search_history_index].clone();
            } else {
                self.search_txt = Vec::new();
            }
            self.input_cursor_pos = self.search_txt.len();
        } else if op == Op::Left {
            if self.input_cursor_pos > 0 {
                self.input_cursor_pos = self.input_cursor_pos - 1;
            }
        } else if op == Op::Right {
            if self.input_cursor_pos + 1 <= self.search_txt.len() {
                self.input_cursor_pos = self.input_cursor_pos + 1;
            }
        }
        true
    }

    /// Typed text while searching: see `edit_post`.
    fn type_chars(&mut self, canvas: &mut Canvas, chars: Vec<char>) -> (run: bool)
        requires
            old(self).wf(),
            chars.len() > 0,
        ensures
            final(self).wf(),
            edit_post(*old(self), *final(self), *old(canvas), *final(canvas), Some(chars@), Op::Noop, run),
    {
        let first_char = chars[0] as u32;
        if first_char < 32 && first_char != 27 && first_char != 10 {
            return false;
        }
        if first_char == 27 {
            self.mode = Mode::Normal;
            self.search_txt = Vec::new();
            self.search_history_index = self.search_history.len();
            self.input_cursor_pos = 0;
            canvas.reset_bottom_bar();
            false
        } else if first_char == 10 {
            self.save_history();
            self.mode = Mode::Normal;
            self.input_cursor_pos = 0;
            canvas.reset_bottom_bar();
            false
        } else if first_char == 127 {
            if self.input_cursor_pos >= 1 {
                self.search_txt.remove(self.input_cursor_pos - 1);
                if canvas.bottom_start > 0 {
                    canvas.bottom_start = canvas.bottom_start - 1;
                }
                self.input_cursor_pos = self.input_cursor_pos - 1;
            }
            true
        } else {
            if chars.len() < usize::MAX / 4 - self.search_txt.len() {
                let pos = self.input_cursor_pos;
                let mut inserted: Vec<char> = Vec::new();
                let mut i: usize = 0;
                while i < pos
                    invariant
                        *self == *old(self),
                        i <= pos <= self.search_txt.len(),
                        inserted@ == self.search_txt@.subrange(0, i as int),
                    decreases pos - i,
                {
                    inserted.push(self.search_txt[i]);
                    i = i + 1;
                    assert(inserted@ =~= self.search_txt@.subrange(0, i as int));
                }
                let mut j: usize = 0;
                while j < chars.len()
                    invariant
                        *self == *old(self),
                        pos <= self.search_txt.len(),
                        j <= chars.len(),
                        inserted@ == self.search_txt@.subrange(0, pos as int) + chars@.subrange(0, j as int),
                    decreases chars.len() - j,
                {
                    inserted.push(chars[j]);
                    j = j + 1;
                    assert(inserted@ =~= self.search_txt@.subrange(0, pos as int) + chars@.subrange(0, j as int));
                }
                let mut k: usize = pos;
                while k < self.search_txt.len()
                    invariant
                        *self == *old(self),
                        pos <= k <= self.search_txt.len(),
                        inserted@ == self.search_txt@.subrange(0, pos as int) + chars@ + self.search_txt@.subrange(pos as int, k as int),
                    decreases self.search_txt.len() - k,
                {
                    inserted.push(self.search_txt[k]);
                    k = k + 1;
                    assert(inserted@ =~= self.search_txt@.subrange(0, pos as int) + chars@ + self.search_txt@.subrange(pos as int, k as int));
                }
                assert(chars@.subrange(0, chars.len() as int) =~= chars@);
                self.search_txt = inserted;
                self.input_cursor_pos = pos + chars.len();
            }
            true
        }
    }

    /// One key while searching: apply it, then, unless it ended the search or
    /// was ignored, move the cursor to the first match from the cursor on.
    pub fn search(&mut self, canvas: &mut Canvas, chars: Option<Vec<char>>, op: Op)
        requires
            old(self).wf(),
        ensures
            final(self).wf(),
            exists|mid: Browser, run: bool|
                #[trigger] edit_post(
                    *old(self),
                    mid,
                    *old(canvas),
                    *final(canvas),
                    typed_view(chars),
                    op,
                    run,
                ) && if run {
                    next_match_post(mid, *final(self), mid.cursor as int, false)
                } else {
                    *final(self) == mid
                },
    {
        let ghost ch = typed_view(chars);
        let run = self.search_edit(canvas, chars, op);
        let ghost mid = *self;
        if run {
            self.next_match(self.cursor, false);
        }
        assert(edit_post(*old(self), mid, *old(canvas), *canvas, ch, op, run));
    }

    /// Handle a key in normal mode: moves and searches are done here; what
    /// needs the file system or ends the program is handed back as a request.
    pub fn normal_op(&mut self, op: Op) -> (r: Request)
        requires
            old(self).wf(),
        ensures
            final(self).wf(),
            r == request_of(op),
            op == Op::Search || op == Op::RevSearch ==> {
                &&& final(self).mode == (if op == Op::Search {
                    Mode::Search
                } else {
                    Mode::RevSearch
                })
                &&& final(self).rev_search == (op == Op::RevSearch)
                &&& final(self).search_txt@ == Seq::<char>::empty()
                &&& final(self).input_cursor_pos == 0
                &&& final(self).cursor == old(self).cursor
                &&& final(self).window_start == old(self).window_start
                &&& final(self).content == old(self).content
            },
            op == Op::NextMatch ==> next_match_post(
                *old(self),
                *final(self),
                (if old(self).rev_search {
                    if old(self).cursor > 0 {
                        old(self).cursor - 1
                    } else if old(self).content.len() > 0 {
                        old(self).content.len() - 1
                    } else {
                        0
                    }
                } else if old(self).cursor + 1 < old(self).content.len() {
                    old(self).cursor + 1
                } else {
                    0
                }) as int,
                false,
            ),
            op == Op::PrevMatch ==> next_match_post(
                *old(self),
                *final(self),
                (if !old(self).rev_search {
                    if old(self).cursor > 0 {
                        old(self).cursor - 1
                    } else if old(self).content.len() > 0 {
                        old(self).content.len() - 1
                    } else {
                        0
                    }
                } else if old(self).cursor + 1 < old(self).content.len() {
                    old(self).cursor + 1
                } else {
                    0
                }) as int,
                true,
            ),
            op != Op::Search && op != Op::RevSearch ==> old(self).same_but_view(&*final(self)),
            op == Op::Up ==> up_post(*old(self), *final(self)),
            op == Op::Down ==> down_post(*old(self), *final(self)),
            op == Op::Top ==> top_post(*old(self), *final(self)),
            op == Op::Bottom ==> bottom_post(*old(self), *final(self)),
            op == Op::PageUp ==> pageup_post(*old(self), *final(self)),
            op == Op::PageDown ==> pagedown_post(*old(self), *final(self)),
            request_of(op) != Request::Stay || op == Op::Noop ==> *final(self) == *old(self),
    {
        match op {
            Op::Up => self.up(),
            Op::Down => self.down(),
            Op::Top => self.top(),
            Op::Bottom => self.bottom(),
            Op::PageUp => self.pageup(),
            Op::PageDown => self.pagedown(),
            Op::Search => {
                self.search_txt = Vec::new();
                self.input_cursor_pos = 0;
                self.mode = Mode::Search;
                self.rev_search = false;
            },
            Op::RevSearch => {
                self.search_txt = Vec::new();
                self.input_cursor_pos = 0;
                self.mode = Mode::RevSearch;
                self.rev_search = true;
            },
            Op::NextMatch => {
                let start = if self.rev_search {
                    self.cursor_minus_one()
                } else {
                    self.cursor_add_one()
                };
                self.next_match(start, false);
            },
            Op::PrevMatch => {
                let start = if self.rev_search {
                    self.cursor_add_one()
                } else {
                    self.cursor_minus_one()
                };
                self.next_match(start, true);
            },
            Op::Left => {
                return Request::Ascend;
            },
            Op::Right => {
                return Request::Descend;
            },
            Op::Exit => {
                return Request::ExitCurDir;
            },
            Op::ExitCursorO => {
                return Request::ExitCursorO;
            },
            Op::ExitCursorEnter => {
                return Request::ExitCursorEnter;
            },
            Op::Quit => {
                return Request::Quit;
            },
            Op::Noop => {},
        }
        Request::Stay
    }

    /// Start in the directory at the canonical `path`, whose listing is
    /// `entries`: its ancestors go on the stack, each with the cursor at the
    /// top.
    pub fn init(&mut self, path: &str, entries: Vec<String>)
        requires
            old(self).wf(),
            canonical_path(path@),
        ensures
            final(self).wf(),
            final(self).current_path@ == path@,
            final(self).past_dir@.map_values(|d: String| d@) == ancestors(path@),
            forall|i: int| 0 <= i < final(self).past_cursor.len() ==> #[trigger] final(self).past_cursor[i] == 0,
            forall|i: int| 0 <= i < final(self).past_window_start.len() ==> #[trigger] final(self).past_window_start[i] == 0,
            listing_of(final(self).content@, entries@),
            final(self).cursor == 0,
            final(self).window_start == 0,
            same_rest(*old(self), *final(self)),
    {
        self.read_content(entries);
        let p = chars_of(path);
        let mut past_dir: Vec<String> = Vec::new();
        let mut past_cursor: Vec<usize> = Vec::new();
        let mut past_window_start: Vec<usize> = Vec::new();
        let mut k: usize = 0;
        while k < p.len()
            invariant
                k <= p.len(),
                p@ == path@,
                past_dir@.map_values(|d: String| d@) == ancestors_upto(p@, k as int),
                past_cursor.len() == past_dir.len(),
                past_window_start.len() == past_dir.len(),
                forall|i: int| 0 <= i < past_cursor.len() ==> #[trigger] past_cursor[i] == 0,
                forall|i: int| 0 <= i < past_window_start.len() ==> #[trigger] past_window_start[i] == 0,
            decreases p.len() - k,
        {
            if p[k] == '/' && k + 1 < p.len() {
                let end = if k == 0 {
                    1
                } else {
                    k
                };
                past_dir.push(string_of(&p.as_slice()[0..end]));
                past_cursor.push(0);
                past_window_start.push(0);
            }
            k = k + 1;
            assert(past_dir@.map_values(|d: String| d@) =~= ancestors_upto(p@, k as int));
        }
        self.past_dir = past_dir;
        self.past_cursor = past_cursor;
        self.past_window_start = past_window_start;
        self.current_path = String::from_str(path);
    }

    /// The row after the cursor, wrapping to the first.
    fn cursor_add_one(&self) -> (r: usize)
        requires
            self.wf(),
        ensures
            self.cursor_ok(r as int),
            r == if self.cursor + 1 < self.content.len() {
                self.cursor + 1
            } else {
                0
            },
    {
        if self.cursor + 1 < self.content.len() {
            self.cursor + 1
        } else {
            0
        }
    }

    /// The row before the cursor, wrapping to the last.
    fn cursor_minus_one(&self) -> (r: usize)
        requires
            self.wf(),
        ensures
            self.cursor_ok(r as int),
            r == if self.cursor > 0 {
                self.cursor - 1
            } else if self.content.len() > 0 {
                self.content.len() - 1
            } else {
                0
            },
    {
        if self.cursor > 0 {
            self.cursor - 1
        } else if self.content.len() > 0 {
            self.content.len() - 1
        } else {
            0
        }
    }
}

/// A browser started in the directory at the canonical `path`, whose listing
/// is `entries`, showing `height` rows; quitting hands back ".".
pub fn new(path: &str, entries: Vec<String>, height: usize) -> (b: Browser)
    requires
        canonical_path(path@),
    ensures
        b.wf(),
        b.current_path@ == path@,
        b.past_dir@.map_values(|d: String| d@) == ancestors(path@),
        listing_of(b.content@, entries@),
        b.cursor == 0,
        b.window_start == 0,
        b.preview@ == Seq::<String>::empty(),
        b.original_path@ == "."@,
        b.mode == Mode::Normal,
        b.search_txt@ == Seq::<char>::empty(),
        b.search_history@ == Seq::<Vec<char>>::empty(),
        b.search_history_index == 0,
        b.input_cursor_pos == 0,
        !b.rev_search,
        b.height == height,
{
    let mut browser = Browser {
        cursor: 0,
        window_start: 0,
        content: Vec::new(),
        preview: Vec::new(),
        past_dir: Vec::new(),
        past_cursor: Vec::new(),
        past_window_start: Vec::new(),
        current_path: String::from_str("/"),
        original_path: String::from_str("."),
        mode: Mode::Normal,
        search_txt: Vec::new(),
        search_history: Vec::new(),
        search_history_index: 0,
        trunc: Vec::new(),
        input_cursor_pos: 0,
        rev_search: false,
        height,
    };
    proof {
        let root = browser.current_path@;
        reveal_strlit("/");
        assert(root.len() == 1 && root[0] == '/');
        assert(ancestors_upto(root, 0) == Seq::<Seq<char>>::empty());
        assert(ancestors(root) =~= Seq::<Seq<char>>::empty());
        assert(browser.past_dir@.map_values(|d: String| d@) =~= Seq::<Seq<char>>::empty());
    }
    browser.init(path, entries);
    browser
}

} // verus!
