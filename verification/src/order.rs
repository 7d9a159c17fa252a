//! Lexicographic order on strings and the stable sort by a string key that
//! orders the folder list.

use vstd::prelude::*;
use vstd::string::*;

verus! {

pub open spec fn char_lt(a: char, b: char) -> bool {
    (a as u32) < (b as u32)
}

/// `a <= b` in the order `String` compares by: character by character, a
/// proper prefix first.
pub open spec fn lex_le(a: Seq<char>, b: Seq<char>) -> bool
    decreases a.len(),
{
    if a.len() == 0 {
        true
    } else if b.len() == 0 {
        false
    } else if char_lt(a[0], b[0]) {
        true
    } else if char_lt(b[0], a[0]) {
        false
    } else {
        lex_le(a.drop_first(), b.drop_first())
    }
}

pub proof fn lemma_lex_total(a: Seq<char>, b: Seq<char>)
    ensures
        lex_le(a, b) || lex_le(b, a),
    decreases a.len(),
{
    if a.len() > 0 && b.len() > 0 && !char_lt(a[0], b[0]) && !char_lt(b[0], a[0]) {
        lemma_lex_total(a.drop_first(), b.drop_first());
    }
}

pub proof fn lemma_lex_trans(a: Seq<char>, b: Seq<char>, c: Seq<char>)
    requires
        lex_le(a, b),
        lex_le(b, c),
    ensures
        lex_le(a, c),
    decreases a.len(),
{
    if a.len() > 0 && b.len() > 0 && c.len() > 0 {
        if !char_lt(a[0], b[0]) && !char_lt(b[0], a[0]) && !char_lt(b[0], c[0]) && !char_lt(
            c[0],
            b[0],
        ) {
            lemma_lex_trans(a.drop_first(), b.drop_first(), c.drop_first());
        }
    }
}

/// Compares two strings in `String` order.
pub fn lex_le_str(a: &str, b: &str) -> (r: bool)
    ensures
        r == lex_le(a@, b@),
{
    let n = a.unicode_len();
    let m = b.unicode_len();
    let mut i: usize = 0;
    assert(a@.skip(0) =~= a@);
    assert(b@.skip(0) =~= b@);
    while i < n && i < m
        invariant
            n == a@.len(),
            m == b@.len(),
            i <= n,
            i <= m,
            lex_le(a@, b@) == lex_le(a@.skip(i as int), b@.skip(i as int)),
        decreases n - i,
    {
        let x = a.get_char(i);
        let y = b.get_char(i);
        let ghost xa = a@.skip(i as int);
        let ghost xb = b@.skip(i as int);
        assert(xa[0] == x && xb[0] == y);
        if (x as u32) < (y as u32) {
            return true;
        }
        if (y as u32) < (x as u32) {
            return false;
        }
        assert(xa.drop_first() =~= a@.skip(i + 1));
        assert(xb.drop_first() =~= b@.skip(i + 1));
        i += 1;
    }
    assert(i == n ==> a@.skip(i as int).len() == 0);
    assert(i < n ==> b@.skip(i as int).len() == 0 && a@.skip(i as int).len() > 0);
    i == n
}

/// Where a new element with key `k` goes when inserted into `s`: after the
/// last element whose key is not greater than `k`.
pub open spec fn back_pos<A>(s: Seq<A>, key: spec_fn(A) -> Seq<char>, k: Seq<char>) -> nat
    decreases s.len(),
{
    if s.len() == 0 {
        0
    } else if lex_le(key(s.last()), k) {
        s.len()
    } else {
        back_pos(s.drop_last(), key, k)
    }
}

/// Stable sort of `s` by `key`: elements with equal keys keep their order.
pub open spec fn sort_by_key<A>(s: Seq<A>, key: spec_fn(A) -> Seq<char>) -> Seq<A>
    decreases s.len(),
{
    if s.len() == 0 {
        s
    } else {
        let rest = sort_by_key(s.drop_last(), key);
        rest.insert(back_pos(rest, key, key(s.last())) as int, s.last())
    }
}

pub open spec fn sorted_by_key<A>(s: Seq<A>, key: spec_fn(A) -> Seq<char>) -> bool {
    forall|i: int, j: int| 0 <= i < j < s.len() ==> lex_le(key(#[trigger] s[i]), key(#[trigger] s[j]))
}

proof fn lemma_back_pos<A>(s: Seq<A>, key: spec_fn(A) -> Seq<char>, k: Seq<char>)
    ensures
        back_pos(s, key, k) <= s.len(),
        back_pos(s, key, k) > 0 ==> lex_le(key(s[back_pos(s, key, k) - 1]), k),
        forall|j: int| back_pos(s, key, k) <= j < s.len() ==> !lex_le(key(#[trigger] s[j]), k),
    decreases s.len(),
{
    if s.len() > 0 && !lex_le(key(s.last()), k) {
        lemma_back_pos(s.drop_last(), key, k);
        let p = back_pos(s, key, k);
        assert forall|j: int| p <= j < s.len() implies !lex_le(key(#[trigger] s[j]), k) by {
            if j < s.len() - 1 {
                assert(s.drop_last()[j] == s[j]);
            }
        }
    }
}

proof fn lemma_insert_sorted_pair<A>(s: Seq<A>, key: spec_fn(A) -> Seq<char>, x: A, i: int, j: int)
    requires
        sorted_by_key(s, key),
        0 <= i < j < s.len() + 1,
    ensures
        ({
            let t = s.insert(back_pos(s, key, key(x)) as int, x);
            lex_le(key(t[i]), key(t[j]))
        }),
{
    let p = back_pos(s, key, key(x)) as int;
    lemma_back_pos(s, key, key(x));
    let t = s.insert(p, x);
    s.insert_ensures(p, x);
    if j < p {
        assert(t[i] == s[i] && t[j] == s[j]);
    } else if j == p {
        assert(t[i] == s[i] && t[j] == x);
        if i < p - 1 {
            assert(lex_le(key(s[i]), key(s[p - 1])));
            lemma_lex_trans(key(s[i]), key(s[p - 1]), key(x));
        }
    } else if i > p {
        assert(t[i] == s[i - 1] && t[j] == s[j - 1]);
    } else if i == p {
        assert(t[i] == x && t[j] == s[j - 1]);
        lemma_lex_total(key(x), key(s[j - 1]));
    } else {
        assert(t[i] == s[i] && t[j] == s[j - 1]);
        lemma_lex_total(key(x), key(s[j - 1]));
        if i < p - 1 {
            assert(lex_le(key(s[i]), key(s[p - 1])));
            lemma_lex_trans(key(s[i]), key(s[p - 1]), key(x));
        }
        lemma_lex_trans(key(s[i]), key(x), key(s[j - 1]));
    }
}

proof fn lemma_insert_sorted<A>(s: Seq<A>, key: spec_fn(A) -> Seq<char>, x: A)
    requires
        sorted_by_key(s, key),
    ensures
        sorted_by_key(s.insert(back_pos(s, key, key(x)) as int, x), key),
{
    let p = back_pos(s, key, key(x)) as int;
    lemma_back_pos(s, key, key(x));
    let t = s.insert(p, x);
    s.insert_ensures(p, x);
    assert forall|i: int, j: int| 0 <= i < j < t.len() implies lex_le(
        key(#[trigger] t[i]),
        key(#[trigger] t[j]),
    ) by {
        lemma_insert_sorted_pair(s, key, x, i, j);
    }
}

/// The stable sort orders its result by key.
pub proof fn lemma_sort_is_sorted<A>(s: Seq<A>, key: spec_fn(A) -> Seq<char>)
    ensures
        sorted_by_key(sort_by_key(s, key), key),
    decreases s.len(),
{
    if s.len() > 0 {
        lemma_sort_is_sorted(s.drop_last(), key);
        lemma_insert_sorted(sort_by_key(s.drop_last(), key), key, s.last());
    }
}

proof fn lemma_insert_multiset<A>(s: Seq<A>, p: int, x: A)
    requires
        0 <= p <= s.len(),
    ensures
        s.insert(p, x).to_multiset() =~= s.to_multiset().insert(x),
{
    broadcast use vstd::seq_lib::group_to_multiset_ensures;

    let t = s.insert(p, x);
    s.insert_ensures(p, x);
    assert(t.remove(p) =~= s);
    assert(t.remove(p).to_multiset() =~= t.to_multiset().remove(x));
    assert(t.to_multiset().count(x) > 0) by {
        assert(t.contains(x));
    }
}

/// The stable sort rearranges its input without adding or losing anything.
pub proof fn lemma_sort_permutes<A>(s: Seq<A>, key: spec_fn(A) -> Seq<char>)
    ensures
        sort_by_key(s, key).to_multiset() =~= s.to_multiset(),
        sort_by_key(s, key).len() == s.len(),
    decreases s.len(),
{
    broadcast use vstd::seq_lib::group_to_multiset_ensures;

    if s.len() > 0 {
        let rest = sort_by_key(s.drop_last(), key);
        lemma_sort_permutes(s.drop_last(), key);
        lemma_back_pos(rest, key, key(s.last()));
        lemma_insert_multiset(rest, back_pos(rest, key, key(s.last())) as int, s.last());
        assert(s.drop_last().push(s.last()) =~= s);
    }
}

/// `s` with `keys[i]` paired to `s[i]`.
pub open spec fn with_keys<A>(s: Seq<A>, keys: Seq<Seq<char>>) -> Seq<(A, Seq<char>)> {
    Seq::new(s.len(), |i: int| (s[i], keys[i]))
}

/// The key of a pair: its second component.
pub open spec fn pair_key<A>() -> spec_fn((A, Seq<char>)) -> Seq<char> {
    |p: (A, Seq<char>)| p.1
}

/// The first components of a sequence of pairs.
pub open spec fn firsts<A>(s: Seq<(A, Seq<char>)>) -> Seq<A> {
    s.map_values(|p: (A, Seq<char>)| p.0)
}

/// Every pair's key is `key` of its element.
pub open spec fn keys_agree<A>(s: Seq<(A, Seq<char>)>, key: spec_fn(A) -> Seq<char>) -> bool {
    forall|i: int| 0 <= i < s.len() ==> (#[trigger] s[i]).1 == key(s[i].0)
}

proof fn lemma_back_pos_firsts<A>(s: Seq<(A, Seq<char>)>, key: spec_fn(A) -> Seq<char>, k: Seq<char>)
    requires
        keys_agree(s, key),
    ensures
        back_pos(s, pair_key(), k) == back_pos(firsts(s), key, k),
    decreases s.len(),
{
    if s.len() > 0 {
        assert(firsts(s).last() == s.last().0);
        assert(firsts(s.drop_last()) =~= firsts(s).drop_last());
        lemma_back_pos_firsts(s.drop_last(), key, k);
    }
}

/// Sorting elements paired with their own keys, by those keys, puts the
/// elements in the order sorting them by `key` does.
pub proof fn lemma_sort_by_given_keys<A>(s: Seq<A>, key: spec_fn(A) -> Seq<char>)
    ensures
        firsts(sort_by_key(with_keys(s, s.map_values(key)), pair_key())) == sort_by_key(s, key),
        keys_agree(sort_by_key(with_keys(s, s.map_values(key)), pair_key()), key),
    decreases s.len(),
{
    let z = with_keys(s, s.map_values(key));
    if s.len() > 0 {
        let t = s.drop_last();
        assert(z.drop_last() =~= with_keys(t, t.map_values(key)));
        lemma_sort_by_given_keys(t, key);
        let rest = sort_by_key(z.drop_last(), pair_key());
        let x = z.last();
        assert(x == (s.last(), key(s.last())));
        lemma_back_pos_firsts(rest, key, key(s.last()));
        let p = back_pos(rest, pair_key(), x.1) as int;
        lemma_sort_permutes(z.drop_last(), pair_key());
        assert(p <= rest.len()) by {
            lemma_back_pos(rest, pair_key(), x.1);
        }
        let r = rest.insert(p, x);
        assert(firsts(r) =~= firsts(rest).insert(p, s.last()));
        assert forall|i: int| 0 <= i < r.len() implies (#[trigger] r[i]).1 == key(r[i].0) by {
            if i < p {
                assert(r[i] == rest[i]);
            } else if i > p {
                assert(r[i] == rest[i - 1]);
            }
        }
    } else {
        assert(firsts(sort_by_key(z, pair_key())) =~= sort_by_key(s, key));
    }
}

} // verus!
