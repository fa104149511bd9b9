//! The order of strings: by characters, as `String`'s `Ord` compares them.
use vstd::prelude::*;
use crate::text::chars_of;

verus! {

/// `a` comes strictly before `b` in dictionary order of characters.
pub open spec fn seq_lt(a: Seq<char>, b: Seq<char>) -> bool
    decreases a.len(),
{
    if a.len() == 0 {
        b.len() > 0
    } else if b.len() == 0 {
        false
    } else if a[0] != b[0] {
        (a[0] as int) < (b[0] as int)
    } else {
        seq_lt(a.drop_first(), b.drop_first())
    }
}

/// Three-way comparison of character sequences: -1, 0 or 1.
pub open spec fn seq_compare(a: Seq<char>, b: Seq<char>) -> int {
    if seq_lt(a, b) {
        -1
    } else if a == b {
        0
    } else {
        1
    }
}

pub proof fn lemma_seq_lt_irreflexive(a: Seq<char>)
    ensures
        !seq_lt(a, a),
    decreases a.len(),
{
    if a.len() > 0 {
        lemma_seq_lt_irreflexive(a.drop_first());
    }
}

pub proof fn lemma_seq_lt_asymmetric(a: Seq<char>, b: Seq<char>)
    ensures
        seq_lt(a, b) ==> !seq_lt(b, a),
    decreases a.len(),
{
    if a.len() > 0 && b.len() > 0 && a[0] == b[0] {
        lemma_seq_lt_asymmetric(a.drop_first(), b.drop_first());
    }
}

pub proof fn lemma_seq_lt_total(a: Seq<char>, b: Seq<char>)
    ensures
        seq_lt(a, b) || seq_lt(b, a) || a == b,
    decreases a.len(),
{
    if a.len() > 0 && b.len() > 0 && a[0] == b[0] {
        lemma_seq_lt_total(a.drop_first(), b.drop_first());
        if a.drop_first() == b.drop_first() {
            assert(a =~= seq![a[0]] + a.drop_first());
            assert(b =~= seq![b[0]] + b.drop_first());
        }
    } else if a.len() == 0 && b.len() == 0 {
        assert(a =~= b);
    } else if a.len() > 0 && b.len() > 0 {
        assert((a[0] as int) != (b[0] as int));
    }
}

pub proof fn lemma_seq_lt_transitive(a: Seq<char>, b: Seq<char>, c: Seq<char>)
    requires
        seq_lt(a, b),
        seq_lt(b, c),
    ensures
        seq_lt(a, c),
    decreases a.len(),
{
    if a.len() > 0 && b.len() > 0 && c.len() > 0 && a[0] == b[0] && b[0] == c[0] {
        lemma_seq_lt_transitive(a.drop_first(), b.drop_first(), c.drop_first());
    }
}

/// Compares `a[i..]` and `b[i..]`.
fn compare_from(a: &Vec<char>, b: &Vec<char>, i: usize) -> (r: i8)
    requires
        i <= a@.len(),
        i <= b@.len(),
    ensures
        r == seq_compare(a@.skip(i as int), b@.skip(i as int)),
    decreases a@.len() - i,
{
    if i == a.len() {
        if i == b.len() {
            assert(a@.skip(i as int) =~= b@.skip(i as int));
            return 0;
        }
        return -1;
    }
    if i == b.len() {
        assert(!seq_lt(a@.skip(i as int), b@.skip(i as int)));
        return 1;
    }
    assert(a@.skip(i as int)[0] == a@[i as int]);
    assert(b@.skip(i as int)[0] == b@[i as int]);
    if a[i] != b[i] {
        proof {
            lemma_seq_lt_irreflexive(a@.skip(i as int));
        }
        if a[i] < b[i] {
            return -1;
        }
        return 1;
    }
    assert(a@.skip(i as int).drop_first() =~= a@.skip(i + 1));
    assert(b@.skip(i as int).drop_first() =~= b@.skip(i + 1));
    let r = compare_from(a, b, i + 1);
    proof {
        if a@.skip(i + 1) == b@.skip(i + 1) {
            assert(a@.skip(i as int) =~= seq![a@[i as int]] + a@.skip(i + 1));
            assert(b@.skip(i as int) =~= seq![b@[i as int]] + b@.skip(i + 1));
        }
        if a@.skip(i as int) == b@.skip(i as int) {
            assert(a@.skip(i + 1) =~= a@.skip(i as int).drop_first());
        }
    }
    r
}

/// Three-way comparison of two strings by characters.
pub fn str_compare(a: &str, b: &str) -> (r: i8)
    ensures
        r == seq_compare(a@, b@),
{
    let x = chars_of(a);
    let y = chars_of(b);
    assert(x@.skip(0) =~= x@);
    assert(y@.skip(0) =~= y@);
    compare_from(&x, &y, 0)
}

/// Whether `a` comes strictly before `b`.
pub fn str_lt(a: &str, b: &str) -> (r: bool)
    ensures
        r == seq_lt(a@, b@),
{
    str_compare(a, b) == -1
}

/// Order of ranked keys: by rank, then by text.
pub open spec fn rank_lt(a: (int, Seq<char>), b: (int, Seq<char>)) -> bool {
    a.0 < b.0 || (a.0 == b.0 && seq_lt(a.1, b.1))
}

/// Where `x` goes in `s`: after every element whose key is not greater than
/// its own, scanning from the end.
pub open spec fn ranked_insertion_point<T>(s: Seq<T>, x: T, key: spec_fn(T) -> (int, Seq<char>)) -> int
    decreases s.len(),
{
    if s.len() == 0 {
        0
    } else if rank_lt(key(x), key(s.last())) {
        ranked_insertion_point(s.drop_last(), x, key)
    } else {
        s.len() as int
    }
}

/// `s` sorted stably by `key`: each element, in order, inserted after those
/// not greater than it.
pub open spec fn ranked_sort<T>(s: Seq<T>, key: spec_fn(T) -> (int, Seq<char>)) -> Seq<T>
    decreases s.len(),
{
    if s.len() == 0 {
        s
    } else {
        let r = ranked_sort(s.drop_last(), key);
        r.insert(ranked_insertion_point(r, s.last(), key), s.last())
    }
}

/// No element's key is smaller than an earlier one's.
pub open spec fn ranked_sorted<T>(s: Seq<T>, key: spec_fn(T) -> (int, Seq<char>)) -> bool {
    forall|i: int, j: int| 0 <= i < j < s.len() ==> !rank_lt(key(#[trigger] s[j]), key(#[trigger] s[i]))
}

pub proof fn lemma_rank_lt_facts(a: (int, Seq<char>), b: (int, Seq<char>), c: (int, Seq<char>))
    ensures
        !rank_lt(a, a),
        rank_lt(a, b) && rank_lt(b, c) ==> rank_lt(a, c),
        rank_lt(a, b) || rank_lt(b, a) || a == b,
{
    lemma_seq_lt_irreflexive(a.1);
    lemma_seq_lt_total(a.1, b.1);
    if rank_lt(a, b) && rank_lt(b, c) && a.0 == b.0 && b.0 == c.0 {
        lemma_seq_lt_transitive(a.1, b.1, c.1);
    }
    if a.0 == b.0 && a.1 == b.1 {
        assert(a == b);
    }
}

proof fn lemma_ranked_insertion_point<T>(s: Seq<T>, x: T, key: spec_fn(T) -> (int, Seq<char>))
    requires
        ranked_sorted(s, key),
    ensures
        0 <= ranked_insertion_point(s, x, key) <= s.len(),
        forall|k: int| 0 <= k < ranked_insertion_point(s, x, key) ==> !rank_lt(key(x), key(#[trigger] s[k])),
        forall|k: int| ranked_insertion_point(s, x, key) <= k < s.len() ==> rank_lt(key(x), key(#[trigger] s[k])),
    decreases s.len(),
{
    if s.len() > 0 {
        let last = s.last();
        if rank_lt(key(x), key(last)) {
            assert(ranked_sorted(s.drop_last(), key)) by {
                assert forall|i: int, j: int| 0 <= i < j < s.drop_last().len() implies !rank_lt(
                    key(#[trigger] s.drop_last()[j]),
                    key(#[trigger] s.drop_last()[i]),
                ) by {
                    assert(s.drop_last()[i] == s[i]);
                    assert(s.drop_last()[j] == s[j]);
                }
            }
            lemma_ranked_insertion_point(s.drop_last(), x, key);
            assert forall|k: int| ranked_insertion_point(s, x, key) <= k < s.len() implies rank_lt(
                key(x),
                key(#[trigger] s[k]),
            ) by {
                if k < s.len() - 1 {
                    assert(s.drop_last()[k] == s[k]);
                }
            }
            assert forall|k: int| 0 <= k < ranked_insertion_point(s, x, key) implies !rank_lt(
                key(x),
                key(#[trigger] s[k]),
            ) by {
                assert(s.drop_last()[k] == s[k]);
            }
        } else {
            assert forall|k: int| 0 <= k < s.len() implies !rank_lt(key(x), key(#[trigger] s[k])) by {
                if k < s.len() - 1 && rank_lt(key(x), key(s[k])) {
                    assert(!rank_lt(key(s[s.len() - 1]), key(s[k])));
                    lemma_rank_lt_facts(key(s[k]), key(last), key(x));
                    lemma_rank_lt_facts(key(x), key(s[k]), key(last));
                }
            }
        }
    }
}

/// A stable sort by key leaves the elements in key order, and keeps their number.
pub proof fn lemma_ranked_sort_sorted<T>(s: Seq<T>, key: spec_fn(T) -> (int, Seq<char>))
    ensures
        ranked_sorted(ranked_sort(s, key), key),
        ranked_sort(s, key).len() == s.len(),
    decreases s.len(),
{
    if s.len() > 0 {
        let r = ranked_sort(s.drop_last(), key);
        let x = s.last();
        lemma_ranked_sort_sorted(s.drop_last(), key);
        lemma_ranked_insertion_point(r, x, key);
        let p = ranked_insertion_point(r, x, key);
        let out = r.insert(p, x);
        assert(out[p] == x);
        assert forall|i: int, j: int| 0 <= i < j < out.len() implies !rank_lt(
            key(#[trigger] out[j]),
            key(#[trigger] out[i]),
        ) by {
            if j < p {
                assert(out[i] == r[i]);
                assert(out[j] == r[j]);
            } else if j == p {
                assert(out[i] == r[i]);
            } else if i == p {
                assert(out[j] == r[j - 1]);
                lemma_rank_lt_facts(key(x), key(r[j - 1]), key(x));
            } else if i < p {
                assert(out[i] == r[i]);
                assert(out[j] == r[j - 1]);
            } else {
                assert(out[i] == r[i - 1]);
                assert(out[j] == r[j - 1]);
            }
        }
    }
}

/// Sorting what is already in key order changes nothing.
pub proof fn lemma_ranked_sort_of_sorted<T>(s: Seq<T>, key: spec_fn(T) -> (int, Seq<char>))
    requires
        ranked_sorted(s, key),
    ensures
        ranked_sort(s, key) == s,
    decreases s.len(),
{
    if s.len() > 0 {
        let d = s.drop_last();
        assert(ranked_sorted(d, key)) by {
            assert forall|i: int, j: int| 0 <= i < j < d.len() implies !rank_lt(key(#[trigger] d[j]), key(#[trigger] d[i])) by {
                assert(d[i] == s[i] && d[j] == s[j]);
            }
        }
        lemma_ranked_sort_of_sorted(d, key);
        if d.len() > 0 {
            assert(d.last() == s[s.len() - 2]);
            assert(!rank_lt(key(s[s.len() - 1]), key(s[s.len() - 2])));
        }
        assert(d.insert(d.len() as int, s.last()) =~= s);
    }
}

proof fn lemma_insertion_point_bounds<T>(s: Seq<T>, x: T, key: spec_fn(T) -> (int, Seq<char>))
    ensures
        0 <= ranked_insertion_point(s, x, key) <= s.len(),
    decreases s.len(),
{
    if s.len() > 0 {
        lemma_insertion_point_bounds(s.drop_last(), x, key);
    }
}

/// Sorting keeps exactly the elements it is given: an element is in the
/// sorted sequence exactly when it is in the original one.
pub proof fn lemma_ranked_sort_contains<T>(s: Seq<T>, key: spec_fn(T) -> (int, Seq<char>), x: T)
    ensures
        ranked_sort(s, key).contains(x) == s.contains(x),
    decreases s.len(),
{
    if s.len() > 0 {
        let r = ranked_sort(s.drop_last(), key);
        let y = s.last();
        let p = ranked_insertion_point(r, y, key);
        lemma_ranked_sort_contains(s.drop_last(), key, x);
        lemma_insertion_point_bounds(r, y, key);
        let out = r.insert(p, y);
        if out.contains(x) {
            let k = choose|k: int| 0 <= k < out.len() && out[k] == x;
            if k < p {
                assert(r[k] == x);
                assert(r.contains(x));
            } else if k > p {
                assert(r[k - 1] == x);
                assert(r.contains(x));
            }
            if x != y {
                assert(r.contains(x));
                let j = choose|j: int| 0 <= j < s.drop_last().len() && s.drop_last()[j] == x;
                assert(s[j] == x);
            }
        }
        if s.contains(x) {
            let k = choose|k: int| 0 <= k < s.len() && s[k] == x;
            if k == s.len() - 1 {
                assert(out[p] == y);
            } else {
                assert(s.drop_last()[k] == x);
                assert(s.drop_last().contains(x));
                let j = choose|j: int| 0 <= j < r.len() && r[j] == x;
                if j < p {
                    assert(out[j] == x);
                } else {
                    assert(out[j + 1] == x);
                }
            }
        }
    }
}

} // verus!
