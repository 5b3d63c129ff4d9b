//! Search patterns: the regular expression and case setting that a search
//! text stands for, matching through regex_lite, and the order in which the
//! listing is scanned for a match.
use vstd::prelude::*;
use crate::text::string_of;

verus! {

/// Number of backslashes that `s` ends with.
pub open spec fn trailing_backslashes(s: Seq<char>) -> nat
    decreases s.len(),
{
    if s.len() > 0 && s.last() == '\\' {
        1 + trailing_backslashes(s.drop_last())
    } else {
        0
    }
}

/// Whether search text `t` ends in a `\C` that is not itself escaped: an even
/// run of backslashes (none included) comes before those two characters.
pub open spec fn has_case_suffix(t: Seq<char>) -> bool {
    &&& t.len() >= 2
    &&& t[t.len() - 2] == '\\'
    &&& t[t.len() - 1] == 'C'
    &&& trailing_backslashes(t.subrange(0, t.len() - 2)) % 2 == 0
}

/// The regular expression that search text `t` stands for, and whether it
/// ignores case: the text without its `\C` suffix, matched with case, where it
/// has one; the whole text, ignoring case, otherwise.
pub open spec fn search_pattern(t: Seq<char>) -> (Seq<char>, bool) {
    if has_case_suffix(t) {
        (t.subrange(0, t.len() - 2), false)
    } else {
        (t, true)
    }
}

/// Whether `regex_lite` compiles `pattern`, case-insensitively where asked.
pub uninterp spec fn regex_compiles(pattern: Seq<char>, case_insensitive: bool) -> bool;

/// Whether the regex that `regex_lite` compiles from `pattern` matches
/// somewhere in `text`.
pub uninterp spec fn regex_matches(pattern: Seq<char>, case_insensitive: bool, text: Seq<char>) -> bool;

/// Whether search pattern `pattern` finds `text`: it compiles, and matches; a
/// pattern that does not compile finds nothing.
pub open spec fn regex_finds(pattern: Seq<char>, case_insensitive: bool, text: Seq<char>) -> bool {
    regex_compiles(pattern, case_insensitive) && regex_matches(pattern, case_insensitive, text)
}

/// Relies on `regex_lite::RegexBuilder::build` (after `case_insensitive`),
/// which compiles or fails depending on the pattern and the setting alone,
/// and on `regex_lite::Regex::is_match`, which depends on the regex and the
/// text alone.
#[verifier::external_body]
pub(crate) fn regex_is_match(pattern: &str, case_insensitive: bool, text: &str) -> (r: bool)
    ensures
        r == (regex_compiles(pattern@, case_insensitive) && regex_matches(
            pattern@,
            case_insensitive,
            text@,
        )),
{
    match regex_lite::RegexBuilder::new(pattern).case_insensitive(case_insensitive).build() {
        Ok(re) => re.is_match(text),
        Err(_) => false,
    }
}

/// The pattern and the case setting of search text `txt`.
pub fn compile_pattern(txt: &Vec<char>) -> (r: (String, bool))
    ensures
        (r.0@, r.1) == search_pattern(txt@),
{
    let len = txt.len();
    if len >= 2 && txt[len - 2] == '\\' && txt[len - 1] == 'C' {
        let mut cnt: usize = 0;
        let mut k: usize = len - 2;
        assert(txt@.subrange(0, k as int) =~= txt@.subrange(0, len - 2));
        while k > 0 && txt[k - 1] == '\\'
            invariant
                k <= len - 2,
                len == txt.len(),
                cnt == (len - 2) - k,
                trailing_backslashes(txt@.subrange(0, len - 2)) == cnt + trailing_backslashes(
                    txt@.subrange(0, k as int),
                ),
            decreases k,
        {
            assert(txt@.subrange(0, k as int).drop_last() =~= txt@.subrange(0, k - 1));
            cnt = cnt + 1;
            k = k - 1;
        }
        if cnt % 2 == 0 {
            return (string_of(&txt.as_slice()[0..len - 2]), false);
        }
    }
    (string_of(txt.as_slice()), true)
}

/// Row `k` of a scan of `n` rows from `start`: forward, wrapping from the last
/// row to the first, or backward (`rev`), wrapping from the first to the last.
pub open spec fn scan_pos(start: int, k: int, n: int, rev: bool) -> int {
    if rev {
        if k <= start {
            start - k
        } else {
            n - (k - start)
        }
    } else {
        if start + k < n {
            start + k
        } else {
            start + k - n
        }
    }
}

/// Steps, from step `k` on, until a scan from `start` reaches a row of
/// `hits` that is set; `hits.len()` where none is.
pub open spec fn first_scan(hits: Seq<bool>, start: int, rev: bool, k: int) -> int
    decreases hits.len() - k,
{
    if k < 0 || k >= hits.len() {
        hits.len() as int
    } else if hits[scan_pos(start, k, hits.len() as int, rev)] {
        k
    } else {
        first_scan(hits, start, rev, k + 1)
    }
}

proof fn lemma_first_scan_hit(hits: Seq<bool>, start: int, rev: bool, k: int, j: int)
    requires
        0 <= k <= j < hits.len(),
        0 <= start < hits.len(),
        hits[scan_pos(start, j, hits.len() as int, rev)],
    ensures
        k <= first_scan(hits, start, rev, k) <= j,
        hits[scan_pos(start, first_scan(hits, start, rev, k), hits.len() as int, rev)],
    decreases j - k,
{
    if !hits[scan_pos(start, k, hits.len() as int, rev)] {
        lemma_first_scan_hit(hits, start, rev, k + 1, j);
    }
}

/// A run of rows: upward from `next` to before `end`, or downward from
/// before `next` to `end`.
pub enum UsizeIter {
    Forward { next: usize, end: usize },
    Backward { next: usize, end: usize },
}

impl UsizeIter {
    /// The rows still to come, in order.
    pub open spec fn view(&self) -> Seq<usize> {
        match *self {
            UsizeIter::Forward { next, end } => if next < end {
                Seq::new((end - next) as nat, |i: int| (next + i) as usize)
            } else {
                Seq::empty()
            },
            UsizeIter::Backward { next, end } => if end < next {
                Seq::new((next - end) as nat, |i: int| (next - 1 - i) as usize)
            } else {
                Seq::empty()
            },
        }
    }

    /// The next row, if any.
    pub fn next(&mut self) -> (r: Option<usize>)
        ensures
            old(self)@.len() == 0 ==> r is None && final(self)@ == old(self)@,
            old(self)@.len() > 0 ==> r == Some(old(self)@[0]) && final(self)@ == old(
                self,
            )@.drop_first(),
    {
        match self {
            UsizeIter::Forward { next, end } => {
                if *next < *end {
                    let r = *next;
                    *next = *next + 1;
                    proof {
                        assert(final(self)@ =~= old(self)@.drop_first());
                    }
                    Some(r)
                } else {
                    None
                }
            },
            UsizeIter::Backward { next, end } => {
                if *end < *next {
                    *next = *next - 1;
                    let r = *next;
                    proof {
                        assert(final(self)@ =~= old(self)@.drop_first());
                    }
                    Some(r)
                } else {
                    None
                }
            },
        }
    }
}

/// Where a scan of `hits` from `start` stops: the first set row in scan
/// order, none where no row is set. A scan from a row of the listing finds a
/// set row wherever there is one.
pub fn first_hit(hits: &Vec<bool>, start: usize, rev: bool) -> (r: Option<usize>)
    requires
        start < hits.len(),
    ensures
        ({
            let k = first_scan(hits@, start as int, rev, 0);
            if k < hits.len() {
                r is Some && r->0 as int == scan_pos(start as int, k, hits.len() as int, rev)
            } else {
                r is None
            }
        }),
        (exists|i: int| 0 <= i < hits.len() && hits[i]) ==> r is Some && r->0 < hits.len()
            && hits[r->0 as int],
        !(exists|i: int| 0 <= i < hits.len() && hits[i]) ==> r is None,
{
    let n = hits.len();
    // up to the end (or the start) of the listing, then round from the other end
    let (mut first, mut second) = if rev {
        (UsizeIter::Backward { next: start + 1, end: 0 }, UsizeIter::Backward { next: n, end: start + 1 })
    } else {
        (UsizeIter::Forward { next: start, end: n }, UsizeIter::Forward { next: 0, end: start })
    };
    let ghost order = first@ + second@;
    proof {
        assert(order.len() == n);
        assert forall|j: int| 0 <= j < n implies order[j] as int == scan_pos(start as int, j, n as int, rev) by {
            if j < first@.len() {
                assert(order[j] == first@[j]);
            } else {
                assert(order[j] == second@[j - first@.len()]);
            }
        }
        assert(order.subrange(0, n as int) =~= order);
    }
    let mut k: usize = 0;
    while k < n
        invariant
            n == hits.len(),
            start < n,
            k <= n,
            order.len() == n,
            forall|j: int| 0 <= j < n ==> #[trigger] order[j] as int == scan_pos(start as int, j, n as int, rev),
            first@ + second@ == order.subrange(k as int, n as int),
            first_scan(hits@, start as int, rev, 0) == first_scan(hits@, start as int, rev, k as int),
        decreases n - k,
    {
        let ghost rest = first@ + second@;
        let ghost f0 = first@;
        let ghost s0 = second@;
        let step = match first.next() {
            Some(i) => Some(i),
            None => second.next(),
        };
        proof {
            assert(rest[0] == order[k as int]);
            assert(rest.drop_first() =~= order.subrange(k + 1, n as int));
            if f0.len() > 0 {
                assert(first@ + second@ =~= rest.drop_first());
                assert(step == Some(rest[0]));
            } else {
                assert(rest =~= s0);
                assert(first@ + second@ =~= rest.drop_first());
            }
        }
        let pos = match step {
            Some(pos) => pos,
            None => {
                assert(false);
                0
            },
        };
        assert(pos as int == scan_pos(start as int, k as int, n as int, rev));
        if hits[pos] {
            proof {
                lemma_first_scan_hit(hits@, start as int, rev, 0, k as int);
            }
            return Some(pos);
        }
        k = k + 1;
    }
    proof {
        if exists|i: int| 0 <= i < hits.len() && hits[i] {
            let i = choose|i: int| 0 <= i < hits.len() && hits[i];
            let j = if rev {
                if i <= start {
                    start - i
                } else {
                    n - (i - start)
                }
            } else {
                if i >= start {
                    i - start
                } else {
                    n - (start - i)
                }
            };
            assert(scan_pos(start as int, j, n as int, rev) == i);
            lemma_first_scan_hit(hits@, start as int, rev, 0, j);
        }
    }
    None
}

} // verus!
