//! Directory listings in the order they are shown: sorted by their lowercase
//! form, equal ones kept in the order they came.
use vstd::prelude::*;
use crate::text::{chars_of, lower_of, lowercase, seq_le};

verus! {

/// Whether each name's lowercase form is at most the next one's.
pub open spec fn sorted_by_lower(s: Seq<String>) -> bool {
    forall|i: int| 0 <= i < s.len() - 1 ==> seq_le(lower_of(#[trigger] s[i]@), lower_of(s[i + 1]@))
}

/// Whether `r` holds the entries of `names` at the positions `orig` (each
/// position once), with entries of equal lowercase form in the order that
/// `names` gives them.
pub open spec fn stable_order(names: Seq<String>, r: Seq<String>, orig: Seq<int>) -> bool {
    &&& orig.len() == r.len()
    &&& forall|k: int| 0 <= k < r.len() ==> 0 <= #[trigger] orig[k] < names.len() && r[k] == names[orig[k]]
    &&& forall|a: int, b: int| 0 <= a < b < r.len() ==> #[trigger] orig[a] != #[trigger] orig[b]
    &&& forall|a: int, b: int|
        0 <= a < b < r.len() && lower_of(r[a]@) == lower_of(r[b]@) ==> #[trigger] orig[a]
            < #[trigger] orig[b]
}

/// Every character sequence comes at or before itself.
pub proof fn lemma_seq_le_refl(a: Seq<char>)
    ensures
        seq_le(a, a),
    decreases a.len(),
{
    if a.len() > 0 {
        lemma_seq_le_refl(a.drop_first());
    }
}

/// Any two character sequences are ordered one way or the other.
pub proof fn lemma_seq_le_total(a: Seq<char>, b: Seq<char>)
    ensures
        seq_le(a, b) || seq_le(b, a),
    decreases a.len(),
{
    if a.len() > 0 && b.len() > 0 {
        if (a[0] as u32) == (b[0] as u32) {
            lemma_seq_le_total(a.drop_first(), b.drop_first());
        }
    }
}

proof fn lemma_seq_le_step(a: Seq<char>, b: Seq<char>, i: int)
    requires
        0 <= i < a.len(),
        i < b.len(),
        (a[i] as u32) == (b[i] as u32),
    ensures
        seq_le(a.subrange(i, a.len() as int), b.subrange(i, b.len() as int)) == seq_le(
            a.subrange(i + 1, a.len() as int),
            b.subrange(i + 1, b.len() as int),
        ),
{
    assert(a.subrange(i, a.len() as int).drop_first() =~= a.subrange(i + 1, a.len() as int));
    assert(b.subrange(i, b.len() as int).drop_first() =~= b.subrange(i + 1, b.len() as int));
}

/// The order of character sequences is transitive.
pub proof fn lemma_seq_le_trans(a: Seq<char>, b: Seq<char>, c: Seq<char>)
    requires
        seq_le(a, b),
        seq_le(b, c),
    ensures
        seq_le(a, c),
    decreases a.len(),
{
    if a.len() > 0 && b.len() > 0 && c.len() > 0 && (a[0] as u32) == (b[0] as u32) && (b[0]
        as u32) == (c[0] as u32) {
        lemma_seq_le_trans(a.drop_first(), b.drop_first(), c.drop_first());
    }
}

/// Whether `x` comes at or before `y` in code point order.
fn chars_le(x: &Vec<char>, y: &Vec<char>) -> (r: bool)
    ensures
        r == seq_le(x@, y@),
{
    let mut i: usize = 0;
    assert(x@.subrange(0, x@.len() as int) =~= x@);
    assert(y@.subrange(0, y@.len() as int) =~= y@);
    while i < x.len() && i < y.len() && (x[i] as u32) == (y[i] as u32)
        invariant
            i <= x.len(),
            i <= y.len(),
            seq_le(x@, y@) == seq_le(
                x@.subrange(i as int, x@.len() as int),
                y@.subrange(i as int, y@.len() as int),
            ),
        decreases x.len() - i,
    {
        proof {
            lemma_seq_le_step(x@, y@, i as int);
        }
        i = i + 1;
    }
    if i == x.len() {
        true
    } else if i == y.len() {
        false
    } else {
        (x[i] as u32) < (y[i] as u32)
    }
}

/// Whether each key is at most every later one.
spec fn keys_sorted(keys: Seq<Vec<char>>) -> bool {
    forall|a: int, b: int| 0 <= a < b < keys.len() ==> seq_le(#[trigger] keys[a]@, #[trigger] keys[b]@)
}

/// Where `key` goes in the sorted `keys`: after every key at most it.
fn upper_bound(keys: &Vec<Vec<char>>, key: &Vec<char>) -> (p: usize)
    requires
        keys_sorted(keys@),
    ensures
        p <= keys.len(),
        forall|q: int| 0 <= q < p ==> seq_le(#[trigger] keys[q]@, key@),
        forall|q: int| p <= q < keys.len() ==> !seq_le(#[trigger] keys[q]@, key@),
{
    let mut lo: usize = 0;
    let mut hi: usize = keys.len();
    while lo < hi
        invariant
            lo <= hi <= keys.len(),
            keys_sorted(keys@),
            forall|q: int| 0 <= q < lo ==> seq_le(#[trigger] keys[q]@, key@),
            forall|q: int| hi <= q < keys.len() ==> !seq_le(#[trigger] keys[q]@, key@),
        decreases hi - lo,
    {
        let mid = lo + (hi - lo) / 2;
        if chars_le(&keys[mid], key) {
            proof {
                assert forall|q: int| 0 <= q < mid + 1 implies seq_le(#[trigger] keys[q]@, key@) by {
                    if q < mid {
                        lemma_seq_le_trans(keys[q]@, keys[mid as int]@, key@);
                    }
                }
            }
            lo = mid + 1;
        } else {
            proof {
                assert forall|q: int| mid <= q < keys.len() implies !seq_le(#[trigger] keys[q]@, key@) by {
                    if q > mid && seq_le(keys[q]@, key@) {
                        lemma_seq_le_trans(keys[mid as int]@, keys[q]@, key@);
                    }
                }
            }
            hi = mid;
        }
    }
    lo
}

/// The names in the order they are shown: by lowercase form, names with the
/// same lowercase form in the order given.
pub fn sort_names(names: Vec<String>) -> (r: Vec<String>)
    ensures
        sorted_by_lower(r@),
        r@.to_multiset() == names@.to_multiset(),
        r.len() == names.len(),
        exists|orig: Seq<int>| stable_order(names@, r@, orig),
{
    let mut sorted: Vec<String> = Vec::new();
    let ghost mut orig: Seq<int> = Seq::empty();
    let mut keys: Vec<Vec<char>> = Vec::new();
    let n = names.len();
    let mut i: usize = 0;
    assert(names@.subrange(0, 0) =~= Seq::<String>::empty());
    while i < n
        invariant
            n == names.len(),
            i <= n,
            keys.len() == sorted.len(),
            forall|k: int| 0 <= k < keys.len() ==> #[trigger] keys[k]@ == lower_of(sorted[k]@),
            keys_sorted(keys@),
            sorted@.to_multiset() == names@.subrange(0, i as int).to_multiset(),
            sorted.len() == i,
            orig.len() == sorted.len(),
            forall|k: int| 0 <= k < sorted.len() ==> 0 <= #[trigger] orig[k] < i && sorted[k] == names[orig[k]],
            forall|a: int, b: int| 0 <= a < b < sorted.len() ==> #[trigger] orig[a] != #[trigger] orig[b],
            forall|a: int, b: int|
                0 <= a < b < sorted.len() && keys[a]@ == keys[b]@ ==> #[trigger] orig[a] < #[trigger] orig[b],
        decreases n - i,
    {
        let name = names[i].clone();
        let key = chars_of(lowercase(name.as_str()).as_str());
        let p = upper_bound(&keys, &key);
        let ghost old_keys = keys@;
        let ghost old_sorted = sorted@;
        let ghost old_orig = orig;
        sorted.insert(p, name);
        keys.insert(p, key);
        proof {
            orig = old_orig.insert(p as int, i as int);
            assert forall|k: int| 0 <= k < sorted.len() implies 0 <= #[trigger] orig[k] < i + 1 && sorted[k] == names[orig[k]] by {
                if k < p {
                    assert(orig[k] == old_orig[k] && sorted[k] == old_sorted[k]);
                } else if k > p {
                    assert(orig[k] == old_orig[k - 1] && sorted[k] == old_sorted[k - 1]);
                }
            }
            assert forall|a: int, b: int| 0 <= a < b < sorted.len() implies #[trigger] orig[a] != #[trigger] orig[b] by {
                let ka = if a < p { a } else { a - 1 };
                let kb = if b < p { b } else { b - 1 };
                if a != p && b != p {
                    assert(orig[a] == old_orig[ka] && orig[b] == old_orig[kb]);
                } else if a == p {
                    assert(orig[b] == old_orig[kb]);
                } else {
                    assert(orig[a] == old_orig[ka]);
                }
            }
            assert forall|a: int, b: int|
                0 <= a < b < sorted.len() && keys[a]@ == keys[b]@ implies #[trigger] orig[a] < #[trigger] orig[b] by {
                let ka = if a < p { a } else { a - 1 };
                let kb = if b < p { b } else { b - 1 };
                if a != p && b != p {
                    assert(orig[a] == old_orig[ka] && orig[b] == old_orig[kb]);
                    assert(keys[a] == old_keys[ka] && keys[b] == old_keys[kb]);
                } else if a == p {
                    assert(keys[b] == old_keys[kb]);
                    lemma_seq_le_refl(key@);
                    assert(!seq_le(old_keys[kb]@, key@));
                } else {
                    assert(orig[a] == old_orig[ka]);
                }
            }
            assert(names@.subrange(0, i + 1) =~= names@.subrange(0, i as int).push(names@[i as int]));
            vstd::seq_lib::to_multiset_insert(old_sorted, p as int, names@[i as int]);
            vstd::seq_lib::to_multiset_build(names@.subrange(0, i as int), names@[i as int]);
            assert forall|a: int, b: int| 0 <= a < b < keys.len() implies seq_le(#[trigger] keys[a]@, #[trigger] keys[b]@) by {
                let ka = if a < p { a } else if a == p { -1 } else { a - 1 };
                let kb = if b < p { b } else if b == p { -1 } else { b - 1 };
                if a == p {
                    lemma_seq_le_total(old_keys[kb]@, key@);
                } else if b == p {
                    assert(seq_le(old_keys[ka]@, key@));
                } else {
                    assert(seq_le(old_keys[ka]@, old_keys[kb]@));
                }
            }
            assert forall|k: int| 0 <= k < keys.len() implies #[trigger] keys[k]@ == lower_of(sorted[k]@) by {
                if k < p {
                    assert(keys[k] == old_keys[k] && sorted[k] == old_sorted[k]);
                } else if k > p {
                    assert(keys[k] == old_keys[k - 1] && sorted[k] == old_sorted[k - 1]);
                }
            }
        }
        i = i + 1;
    }
    assert(names@.subrange(0, n as int) =~= names@);
    assert forall|k: int| 0 <= k < sorted@.len() - 1 implies seq_le(lower_of(#[trigger] sorted@[k]@), lower_of(sorted@[k + 1]@)) by {
        assert(keys[k]@ == lower_of(sorted[k]@));
        assert(keys[k + 1]@ == lower_of(sorted[k + 1]@));
        assert(seq_le(keys[k]@, keys[k + 1]@));
    }
    assert(stable_order(names@, sorted@, orig)) by {
        assert forall|a: int, b: int|
            0 <= a < b < sorted@.len() && lower_of(sorted@[a]@) == lower_of(sorted@[b]@) implies #[trigger] orig[a] < #[trigger] orig[b] by {
            assert(keys[a]@ == lower_of(sorted[a]@));
            assert(keys[b]@ == lower_of(sorted[b]@));
        }
    }
    sorted
}

} // verus!
