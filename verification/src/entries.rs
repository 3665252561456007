//! The mathematical model of a vector's components: a sequence of
//! `(key, amount)` entries in strictly ascending key order, read as a map.
use vstd::prelude::*;

use crate::error::AuthxError;
use crate::text::{is_blank_spec, key_lt, lemma_key_order};

verus! {

/// The entries are in strictly ascending key order (so no key occurs twice).
pub open spec fn canonical(s: Seq<(String, u128)>) -> bool {
    forall|i: int, j: int| 0 <= i < j < s.len() ==> key_lt(#[trigger] s[i].0@, #[trigger] s[j].0@)
}

/// Whether some entry has key `k`.
pub open spec fn has_key(s: Seq<(String, u128)>, k: Seq<char>) -> bool {
    exists|i: int| 0 <= i < s.len() && #[trigger] s[i].0@ == k
}

/// A position of an entry with key `k`.
pub open spec fn key_pos(s: Seq<(String, u128)>, k: Seq<char>) -> int {
    choose|i: int| 0 <= i < s.len() && #[trigger] s[i].0@ == k
}

/// The map from keys to amounts that a sequence of entries describes.
pub open spec fn entries_map(s: Seq<(String, u128)>) -> Map<Seq<char>, u128> {
    Map::new(|k: Seq<char>| has_key(s, k), |k: Seq<char>| s[key_pos(s, k)].1)
}

/// The map built by inserting the pairs one after another: a later pair
/// replaces the amount of an earlier pair with the same key.
pub open spec fn pairs_map(p: Seq<(String, u128)>) -> Map<Seq<char>, u128>
    decreases p.len(),
{
    if p.len() == 0 {
        Map::empty()
    } else {
        pairs_map(p.drop_last()).insert(p.last().0@, p.last().1)
    }
}

/// The sum of all amounts.
pub open spec fn total(s: Seq<(String, u128)>) -> nat
    decreases s.len(),
{
    if s.len() == 0 {
        0
    } else {
        total(s.drop_last()) + (s.last().1 as nat)
    }
}

/// Saturating addition of amounts.
pub open spec fn sat_add(x: u128, y: u128) -> u128 {
    if x + y > u128::MAX {
        u128::MAX
    } else {
        (x + y) as u128
    }
}

/// Key-wise saturating sum of two maps; a key of only one map keeps its amount.
pub open spec fn merge_add(a: Map<Seq<char>, u128>, b: Map<Seq<char>, u128>) -> Map<
    Seq<char>,
    u128,
> {
    Map::new(
        |k: Seq<char>| a.contains_key(k) || b.contains_key(k),
        |k: Seq<char>|
            if a.contains_key(k) && b.contains_key(k) {
                sat_add(a[k], b[k])
            } else if a.contains_key(k) {
                a[k]
            } else {
                b[k]
            },
    )
}

/// No key-wise sum of the two maps exceeds `u128::MAX`.
pub open spec fn no_saturation(a: Map<Seq<char>, u128>, b: Map<Seq<char>, u128>) -> bool {
    forall|k: Seq<char>|
        a.contains_key(k) && b.contains_key(k) ==> #[trigger] a[k] + #[trigger] b[k] <= u128::MAX
}

/// Every key of `b` is in `a` with at least the amount it has in `b`.
pub open spec fn can_subtract(a: Map<Seq<char>, u128>, b: Map<Seq<char>, u128>) -> bool {
    forall|k: Seq<char>| #[trigger]
        b.contains_key(k) ==> a.contains_key(k) && a[k] >= b[k]
}

/// `a` with the amounts of `b` taken off key-wise (keys of `b` not in `a` are ignored).
pub open spec fn minus(a: Map<Seq<char>, u128>, b: Map<Seq<char>, u128>) -> Map<Seq<char>, u128> {
    Map::new(
        |k: Seq<char>| a.contains_key(k),
        |k: Seq<char>|
            if b.contains_key(k) {
                (a[k] - b[k]) as u128
            } else {
                a[k]
            },
    )
}

/// The entries of a map whose amount is not zero.
pub open spec fn positive_part(m: Map<Seq<char>, u128>) -> Map<Seq<char>, u128> {
    Map::new(|k: Seq<char>| m.contains_key(k) && m[k] > 0, |k: Seq<char>| m[k])
}

/// Whether subtracting the entry `e` from `a` falls short.
pub open spec fn shortfall(a: Map<Seq<char>, u128>, e: (String, u128)) -> bool {
    !(a.contains_key(e.0@) && a[e.0@] >= e.1)
}

/// The position of the first entry of `o` whose subtraction from `a` falls short.
pub open spec fn first_shortfall(a: Map<Seq<char>, u128>, o: Seq<(String, u128)>) -> int {
    choose|j: int|
        0 <= j < o.len() && shortfall(a, #[trigger] o[j]) && forall|i: int|
            0 <= i < j ==> !shortfall(a, #[trigger] o[i])
}

/// The message of a subtraction whose key is absent.
pub open spec fn missing_message(k: Seq<char>) -> Seq<char> {
    "component "@ + k + " missing in subtraction"@
}

/// The message of a subtraction that would go below zero.
pub open spec fn negative_message(k: Seq<char>) -> Seq<char> {
    "component "@ + k + " would become negative"@
}

/// The error reported when subtracting `e` from `a` falls short.
pub open spec fn is_shortfall_error(err: AuthxError, a: Map<Seq<char>, u128>, e: (String, u128)) -> bool {
    match err {
        AuthxError::ErrInvalidState(m) => if a.contains_key(e.0@) {
            m@ == negative_message(e.0@)
        } else {
            m@ == missing_message(e.0@)
        },
        _ => false,
    }
}

/// The message of a vector with a blank key.
pub open spec fn blank_key_message() -> Seq<char> {
    "component keys must be non-empty"@
}

/// Some key of the map is blank.
pub open spec fn has_blank_key(m: Map<Seq<char>, u128>) -> bool {
    exists|k: Seq<char>| m.contains_key(k) && is_blank_spec(k)
}

/// Every amount of the map is zero.
pub open spec fn all_zero(m: Map<Seq<char>, u128>) -> bool {
    forall|k: Seq<char>| #[trigger] m.contains_key(k) ==> m[k] == 0
}

/// The entries with their keys read as texts.
pub open spec fn entry_views(s: Seq<(String, u128)>) -> Seq<(Seq<char>, u128)> {
    s.map_values(|e: (String, u128)| (e.0@, e.1))
}

// ---------------------------------------------------------------------------
// Lemmas
// ---------------------------------------------------------------------------

/// In canonical entries, the entry at `i` gives the map's amount for its key.
pub proof fn lemma_entry_in_map(s: Seq<(String, u128)>, i: int)
    requires
        canonical(s),
        0 <= i < s.len(),
    ensures
        entries_map(s).contains_key(s[i].0@),
        entries_map(s)[s[i].0@] == s[i].1,
{
    let k = s[i].0@;
    assert(has_key(s, k));
    let j = key_pos(s, k);
    if j != i {
        lemma_key_order(k, k, k);
        if j < i {
            assert(key_lt(s[j].0@, s[i].0@));
        } else {
            assert(key_lt(s[i].0@, s[j].0@));
        }
    }
}

/// Every key of the map is the key of some entry.
pub proof fn lemma_map_key_entry(s: Seq<(String, u128)>, k: Seq<char>) -> (i: int)
    requires
        canonical(s),
        entries_map(s).contains_key(k),
    ensures
        0 <= i < s.len(),
        s[i].0@ == k,
        entries_map(s)[k] == s[i].1,
{
    let i = key_pos(s, k);
    lemma_entry_in_map(s, i);
    i
}

/// A prefix of canonical entries is canonical.
pub proof fn lemma_canonical_take(s: Seq<(String, u128)>, n: int)
    requires
        canonical(s),
        0 <= n <= s.len(),
    ensures
        canonical(s.take(n)),
{
    assert forall|i: int, j: int| 0 <= i < j < s.take(n).len() implies key_lt(
        #[trigger] s.take(n)[i].0@,
        #[trigger] s.take(n)[j].0@,
    ) by {
        assert(s.take(n)[i] == s[i]);
        assert(s.take(n)[j] == s[j]);
    }
}

/// Replacing the amount of an entry (keeping its key) keeps the entries
/// canonical and sets that key's amount in the map.
pub proof fn lemma_update_amount(s: Seq<(String, u128)>, p: int, e: (String, u128))
    requires
        canonical(s),
        0 <= p < s.len(),
        e.0@ == s[p].0@,
    ensures
        canonical(s.update(p, e)),
        entries_map(s.update(p, e)) == entries_map(s).insert(e.0@, e.1),
        total(s.update(p, e)) + s[p].1 == total(s) + e.1,
{
    let s2 = s.update(p, e);
    assert forall|i: int, j: int| 0 <= i < j < s2.len() implies key_lt(
        #[trigger] s2[i].0@,
        #[trigger] s2[j].0@,
    ) by {
        assert(key_lt(s[i].0@, s[j].0@));
    }
    let m = entries_map(s).insert(e.0@, e.1);
    assert forall|k: Seq<char>| #[trigger] entries_map(s2).contains_key(k) <==> m.contains_key(k) by {
        if entries_map(s2).contains_key(k) {
            let i = lemma_map_key_entry(s2, k);
            if i != p {
                assert(s[i] == s2[i]);
                lemma_entry_in_map(s, i);
            }
        }
        if m.contains_key(k) && k != e.0@ {
            let i = lemma_map_key_entry(s, k);
            assert(s2[i] == s[i]);
            lemma_entry_in_map(s2, i);
        }
        if k == e.0@ {
            lemma_entry_in_map(s2, p);
        }
    }
    assert forall|k: Seq<char>| #[trigger] m.contains_key(k) implies entries_map(s2)[k] == m[k] by {
        if k == e.0@ {
            lemma_entry_in_map(s2, p);
        } else {
            let i = lemma_map_key_entry(s, k);
            assert(s2[i] == s[i]);
            lemma_entry_in_map(s2, i);
        }
    }
    assert(entries_map(s2) =~= m);
    lemma_total_update(s, p, e);
}

/// The total after replacing one entry.
pub proof fn lemma_total_update(s: Seq<(String, u128)>, p: int, e: (String, u128))
    requires
        0 <= p < s.len(),
    ensures
        total(s.update(p, e)) + s[p].1 == total(s) + e.1,
    decreases s.len(),
{
    let s2 = s.update(p, e);
    if p == s.len() - 1 {
        assert(s2.drop_last() =~= s.drop_last());
    } else {
        assert(s2.drop_last() =~= s.drop_last().update(p, e));
        lemma_total_update(s.drop_last(), p, e);
    }
}

/// The total after inserting one entry.
pub proof fn lemma_total_insert(s: Seq<(String, u128)>, p: int, e: (String, u128))
    requires
        0 <= p <= s.len(),
    ensures
        total(s.insert(p, e)) == total(s) + e.1,
    decreases s.len(),
{
    let s2 = s.insert(p, e);
    if p == s.len() {
        assert(s2.drop_last() =~= s);
    } else {
        assert(s2.drop_last() =~= s.drop_last().insert(p, e));
        lemma_total_insert(s.drop_last(), p, e);
    }
}

/// Inserting an entry at the place its key belongs keeps the entries
/// canonical and adds the key to the map.
pub proof fn lemma_insert_entry(s: Seq<(String, u128)>, p: int, e: (String, u128))
    requires
        canonical(s),
        0 <= p <= s.len(),
        forall|i: int| 0 <= i < p ==> key_lt(#[trigger] s[i].0@, e.0@),
        forall|i: int| p <= i < s.len() ==> key_lt(e.0@, #[trigger] s[i].0@),
    ensures
        canonical(s.insert(p, e)),
        !entries_map(s).contains_key(e.0@),
        entries_map(s.insert(p, e)) == entries_map(s).insert(e.0@, e.1),
        total(s.insert(p, e)) == total(s) + e.1,
{
    let s2 = s.insert(p, e);
    assert forall|i: int, j: int| 0 <= i < j < s2.len() implies key_lt(
        #[trigger] s2[i].0@,
        #[trigger] s2[j].0@,
    ) by {
        if j < p {
            assert(key_lt(s[i].0@, s[j].0@));
        } else if j == p {
        } else if i < p {
            assert(s2[j] == s[j - 1]);
            lemma_key_order(s[i].0@, e.0@, s[j - 1].0@);
        } else if i == p {
            assert(s2[j] == s[j - 1]);
        } else {
            assert(key_lt(s[i - 1].0@, s[j - 1].0@));
        }
    }
    if entries_map(s).contains_key(e.0@) {
        let i = lemma_map_key_entry(s, e.0@);
        lemma_key_order(e.0@, e.0@, e.0@);
    }
    let m = entries_map(s).insert(e.0@, e.1);
    assert forall|k: Seq<char>| #[trigger] entries_map(s2).contains_key(k) <==> m.contains_key(k) by {
        if entries_map(s2).contains_key(k) {
            let i = lemma_map_key_entry(s2, k);
            if i < p {
                assert(s2[i] == s[i]);
                lemma_entry_in_map(s, i);
            } else if i > p {
                assert(s2[i] == s[i - 1]);
                lemma_entry_in_map(s, i - 1);
            }
        }
        if m.contains_key(k) && k != e.0@ {
            let i = lemma_map_key_entry(s, k);
            if i < p {
                assert(s2[i] == s[i]);
                lemma_entry_in_map(s2, i);
            } else {
                assert(s2[i + 1] == s[i]);
                lemma_entry_in_map(s2, i + 1);
            }
        }
        if k == e.0@ {
            lemma_entry_in_map(s2, p);
        }
    }
    assert forall|k: Seq<char>| #[trigger] m.contains_key(k) implies entries_map(s2)[k] == m[k] by {
        if k == e.0@ {
            lemma_entry_in_map(s2, p);
        } else {
            let i = lemma_map_key_entry(s, k);
            if i < p {
                assert(s2[i] == s[i]);
                lemma_entry_in_map(s2, i);
            } else {
                assert(s2[i + 1] == s[i]);
                lemma_entry_in_map(s2, i + 1);
            }
        }
    }
    assert(entries_map(s2) =~= m);
    lemma_total_insert(s, p, e);
}

/// Extending canonical entries by their next entry adds it to the map.
pub proof fn lemma_take_next(s: Seq<(String, u128)>, j: int)
    requires
        canonical(s),
        0 <= j < s.len(),
    ensures
        canonical(s.take(j)),
        !entries_map(s.take(j)).contains_key(s[j].0@),
        entries_map(s.take(j + 1)) == entries_map(s.take(j)).insert(s[j].0@, s[j].1),
        total(s.take(j + 1)) == total(s.take(j)) + s[j].1,
{
    lemma_canonical_take(s, j);
    assert(s.take(j + 1) =~= s.take(j).insert(j, s[j]));
    assert forall|i: int| 0 <= i < j implies key_lt(#[trigger] s.take(j)[i].0@, s[j].0@) by {
        assert(s.take(j)[i] == s[i]);
    }
    lemma_insert_entry(s.take(j), j, s[j]);
}

/// For canonical entries, inserting them one by one builds the same map.
pub proof fn lemma_pairs_map_canonical(s: Seq<(String, u128)>)
    requires
        canonical(s),
    ensures
        pairs_map(s) == entries_map(s),
    decreases s.len(),
{
    if s.len() == 0 {
        assert(entries_map(s) =~= Map::empty());
    } else {
        let j = s.len() - 1;
        lemma_take_next(s, j);
        assert(s.take(j) =~= s.drop_last());
        assert(s.take(j + 1) =~= s);
        lemma_pairs_map_canonical(s.drop_last());
    }
}

/// A prefix has no larger total.
pub proof fn lemma_total_take(s: Seq<(String, u128)>, n: int)
    requires
        0 <= n <= s.len(),
    ensures
        total(s.take(n)) <= total(s),
    decreases s.len() - n,
{
    if n < s.len() {
        assert(s.take(n + 1).drop_last() =~= s.take(n));
        lemma_total_take(s, n + 1);
    } else {
        assert(s.take(n) =~= s);
    }
}

/// The total of canonical entries is zero exactly when every amount is zero.
pub proof fn lemma_total_zero(s: Seq<(String, u128)>)
    requires
        canonical(s),
    ensures
        (total(s) == 0) == all_zero(entries_map(s)),
    decreases s.len(),
{
    if s.len() == 0 {
    } else {
        let j = s.len() - 1;
        lemma_take_next(s, j);
        assert(s.take(j) =~= s.drop_last());
        assert(s.take(j + 1) =~= s);
        lemma_total_zero(s.drop_last());
        let m0 = entries_map(s.drop_last());
        let m = entries_map(s);
        if all_zero(m) {
            assert(m.contains_key(s[j].0@));
            assert(m[s[j].0@] == 0);
            assert forall|k: Seq<char>| #[trigger] m0.contains_key(k) implies m0[k] == 0 by {
                assert(m.contains_key(k));
            }
        }
        if total(s) == 0 {
            assert forall|k: Seq<char>| #[trigger] m.contains_key(k) implies m[k] == 0 by {
                if k != s[j].0@ {
                    assert(m0.contains_key(k));
                }
            }
        }
    }
}

/// Canonical entries are determined by the map they describe.
pub proof fn lemma_canonical_unique(s: Seq<(String, u128)>, t: Seq<(String, u128)>)
    requires
        canonical(s),
        canonical(t),
        entries_map(s) == entries_map(t),
    ensures
        entry_views(s) == entry_views(t),
    decreases s.len() + t.len(),
{
    if s.len() == 0 && t.len() == 0 {
        assert(entry_views(s) =~= entry_views(t));
    } else if s.len() == 0 {
        lemma_entry_in_map(t, 0);
    } else if t.len() == 0 {
        lemma_entry_in_map(s, 0);
    } else {
        let n = s.len() - 1;
        let m = t.len() - 1;
        let ks = s[n].0@;
        let kt = t[m].0@;
        lemma_entry_in_map(s, n);
        lemma_entry_in_map(t, m);
        let j = lemma_map_key_entry(t, ks);
        let i = lemma_map_key_entry(s, kt);
        lemma_key_order(ks, kt, ks);
        if j < m {
            assert(key_lt(t[j].0@, t[m].0@));
        }
        if i < n {
            assert(key_lt(s[i].0@, s[n].0@));
        }
        if ks != kt {
            // Each last key is at or below the other's last key.
            assert(j < m && i < n);
        }
        lemma_take_next(s, n);
        lemma_take_next(t, m);
        assert(s.take(n) =~= s.drop_last());
        assert(s.take(n + 1) =~= s);
        assert(t.take(m) =~= t.drop_last());
        assert(t.take(m + 1) =~= t);
        let ms = entries_map(s.drop_last());
        let mt = entries_map(t.drop_last());
        assert(ms =~= entries_map(s).remove(ks));
        assert(mt =~= entries_map(t).remove(kt));
        lemma_canonical_take(s, n);
        lemma_canonical_take(t, m);
        lemma_canonical_unique(s.drop_last(), t.drop_last());
        assert(entry_views(s) =~= entry_views(s.drop_last()).push((ks, s[n].1)));
        assert(entry_views(t) =~= entry_views(t.drop_last()).push((kt, t[m].1)));
    }
}

} // verus!
