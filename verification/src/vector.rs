//! Vector balances: named components with unsigned amounts, kept in
//! canonical (ascending key) order.
use vstd::prelude::*;

use crate::entries::{
    all_zero, can_subtract, canonical, entries_map, first_shortfall, has_blank_key,
    is_shortfall_error, lemma_entry_in_map, lemma_insert_entry, lemma_map_key_entry,
    lemma_pairs_map_canonical, lemma_take_next, lemma_total_take, lemma_update_amount, merge_add,
    minus, no_saturation, pairs_map, positive_part, shortfall, total, blank_key_message,
};
use crate::error::AuthxError;
use crate::text::{compare_text, is_blank, is_blank_spec, key_lt, lemma_key_order, KeyOrder};

verus! {

/// Where a key is or would go in canonical entries.
fn find_slot(comps: &Vec<(String, u128)>, key: &str) -> (r: (usize, bool))
    requires
        canonical(comps@),
    ensures
        r.0 <= comps@.len(),
        forall|i: int| 0 <= i < r.0 ==> key_lt(#[trigger] comps@[i].0@, key@),
        r.1 ==> r.0 < comps@.len() && comps@[r.0 as int].0@ == key@,
        !r.1 ==> forall|i: int| r.0 <= i < comps@.len() ==> key_lt(key@, #[trigger] comps@[i].0@),
        r.1 <==> entries_map(comps@).contains_key(key@),
{
    let mut i: usize = 0;
    while i < comps.len()
        invariant
            canonical(comps@),
            i <= comps@.len(),
            forall|j: int| 0 <= j < i ==> key_lt(#[trigger] comps@[j].0@, key@),
        decreases comps@.len() - i,
    {
        match compare_text(comps[i].0.as_str(), key) {
            KeyOrder::Less => {
                i = i + 1;
            },
            KeyOrder::Equal => {
                proof {
                    lemma_entry_in_map(comps@, i as int);
                }
                return (i, true);
            },
            KeyOrder::Greater => {
                proof {
                    assert forall|j: int| i <= j < comps@.len() implies key_lt(
                        key@,
                        #[trigger] comps@[j].0@,
                    ) by {
                        if j > i {
                            assert(key_lt(comps@[i as int].0@, comps@[j].0@));
                            lemma_key_order(key@, comps@[i as int].0@, comps@[j].0@);
                        }
                    }
                    lemma_absent(comps@, i as int, key@);
                }
                return (i, false);
            },
        }
    }
    proof {
        lemma_absent(comps@, i as int, key@);
    }
    (i, false)
}

/// A key strictly between the entries before `p` and those from `p` on is absent.
proof fn lemma_absent(s: Seq<(String, u128)>, p: int, k: Seq<char>)
    requires
        canonical(s),
        0 <= p <= s.len(),
        forall|i: int| 0 <= i < p ==> key_lt(#[trigger] s[i].0@, k),
        forall|i: int| p <= i < s.len() ==> key_lt(k, #[trigger] s[i].0@),
    ensures
        !entries_map(s).contains_key(k),
{
    if entries_map(s).contains_key(k) {
        let i = lemma_map_key_entry(s, k);
        lemma_key_order(k, k, k);
    }
}

/// Sets the amount of `key` (inserting it in order when absent).
fn put_amount(comps: &mut Vec<(String, u128)>, key: &String, amount: u128, slot: (usize, bool))
    requires
        canonical(old(comps)@),
        slot.0 <= old(comps)@.len(),
        forall|i: int| 0 <= i < slot.0 ==> key_lt(#[trigger] old(comps)@[i].0@, key@),
        slot.1 ==> slot.0 < old(comps)@.len() && old(comps)@[slot.0 as int].0@ == key@,
        !slot.1 ==> forall|i: int|
            slot.0 <= i < old(comps)@.len() ==> key_lt(key@, #[trigger] old(comps)@[i].0@),
    ensures
        canonical(final(comps)@),
        entries_map(final(comps)@) == entries_map(old(comps)@).insert(key@, amount),
        slot.1 ==> total(final(comps)@) + old(comps)@[slot.0 as int].1 == total(old(comps)@)
            + amount,
        !slot.1 ==> total(final(comps)@) == total(old(comps)@) + amount,
{
    let entry = (key.clone(), amount);
    if slot.1 {
        proof {
            lemma_update_amount(comps@, slot.0 as int, entry);
        }
        comps.set(slot.0, entry);
    } else {
        proof {
            lemma_insert_entry(comps@, slot.0 as int, entry);
        }
        comps.insert(slot.0, entry);
    }
}

/// A vector balance: named components with unsigned amounts.
///
/// Components are kept in ascending key order (byte order of the keys), as a
/// `BTreeMap<String, Amount>` keeps them.
#[derive(Debug, PartialEq, Eq)]
pub struct VectorState {
    components: Vec<(String, u128)>,
}

impl View for VectorState {
    type V = Map<Seq<char>, u128>;

    /// The components as a map from key to amount.
    open spec fn view(&self) -> Map<Seq<char>, u128> {
        entries_map(self.entries())
    }
}

impl VectorState {
    /// The components in ascending key order.
    pub closed spec fn entries(&self) -> Seq<(String, u128)> {
        self.components@
    }

    #[verifier::type_invariant]
    closed spec fn inv(&self) -> bool {
        canonical(self.components@)
    }

    /// The components in ascending key order.
    pub fn components(&self) -> (r: &Vec<(String, u128)>)
        ensures
            r@ == self.entries(),
            canonical(r@),
    {
        proof {
            use_type_invariant(self);
        }
        &self.components
    }

    /// Builds a vector from a component map given as key-ordered pairs; pairs
    /// out of order or with repeated keys are inserted one after another.
    pub fn new(components: Vec<(String, u128)>) -> (r: Self)
        ensures
            r@ == pairs_map(components@),
            canonical(components@) ==> r.entries() == components@,
    {
        if is_canonical(&components) {
            proof {
                lemma_pairs_map_canonical(components@);
            }
            VectorState { components }
        } else {
            Self::from_pairs(components)
        }
    }

    /// Builds a vector by inserting the pairs in turn; a later pair replaces
    /// the amount of an earlier one with the same key.
    pub fn from_pairs(pairs: Vec<(String, u128)>) -> (r: Self)
        ensures
            r@ == pairs_map(pairs@),
    {
        let mut comps: Vec<(String, u128)> = Vec::new();
        let mut j: usize = 0;
        proof {
            assert(pairs@.take(0) =~= Seq::<(String, u128)>::empty());
            assert(entries_map(comps@) =~= Map::empty());
        }
        while j < pairs.len()
            invariant
                j <= pairs@.len(),
                canonical(comps@),
                entries_map(comps@) == pairs_map(pairs@.take(j as int)),
            decreases pairs@.len() - j,
        {
            let slot = find_slot(&comps, pairs[j].0.as_str());
            put_amount(&mut comps, &pairs[j].0, pairs[j].1, slot);
            proof {
                assert(pairs@.take(j + 1).drop_last() =~= pairs@.take(j as int));
            }
            j = j + 1;
        }
        proof {
            assert(pairs@.take(pairs@.len() as int) =~= pairs@);
        }
        VectorState { components: comps }
    }

    /// The zero vector: no components.
    pub fn zero() -> (r: Self)
        ensures
            r@ == Map::<Seq<char>, u128>::empty(),
            r.entries().len() == 0,
    {
        let r = VectorState { components: Vec::new() };
        proof {
            assert(r@ =~= Map::<Seq<char>, u128>::empty());
        }
        r
    }

    /// Whether every component amount is zero.
    pub fn is_zero(&self) -> (b: bool)
        ensures
            b == all_zero(self@),
    {
        proof {
            use_type_invariant(self);
        }
        let mut i: usize = 0;
        while i < self.components.len()
            invariant
                canonical(self.components@),
                i <= self.components@.len(),
                forall|j: int| 0 <= j < i ==> (#[trigger] self.components@[j]).1 == 0,
            decreases self.components@.len() - i,
        {
            if self.components[i].1 != 0 {
                proof {
                    lemma_entry_in_map(self.components@, i as int);
                }
                return false;
            }
            i = i + 1;
        }
        proof {
            assert forall|k: Seq<char>| #[trigger] self@.contains_key(k) implies self@[k] == 0 by {
                let j = lemma_map_key_entry(self.components@, k);
            }
        }
        true
    }

    /// The sum of all component amounts, or `None` when it exceeds `u128::MAX`.
    pub fn checked_magnitude(&self) -> (r: Option<u128>)
        ensures
            r matches Some(m) ==> m == total(self.entries()),
            r is None <==> total(self.entries()) > u128::MAX,
    {
        let mut sum: u128 = 0;
        let mut i: usize = 0;
        while i < self.components.len()
            invariant
                i <= self.components@.len(),
                sum == total(self.components@.take(i as int)),
            decreases self.components@.len() - i,
        {
            proof {
                assert(self.components@.take(i + 1).drop_last() =~= self.components@.take(
                    i as int,
                ));
            }
            match sum.checked_add(self.components[i].1) {
                Some(s) => {
                    sum = s;
                },
                None => {
                    proof {
                        lemma_total_take(self.components@, i + 1);
                    }
                    return None;
                },
            }
            i = i + 1;
        }
        proof {
            assert(self.components@.take(i as int) =~= self.components@);
        }
        Some(sum)
    }

    /// The sum of all component amounts.
    pub fn magnitude(&self) -> (m: u128)
        requires
            total(self.entries()) <= u128::MAX,
        ensures
            m == total(self.entries()),
    {
        match self.checked_magnitude() {
            Some(m) => m,
            None => 0,
        }
    }

    /// Fails when some component key is blank (empty after trimming white space).
    pub fn validate_nonnegative(&self) -> (r: Result<(), AuthxError>)
        ensures
            r is Ok <==> !has_blank_key(self@),
            r matches Err(e) ==> e matches AuthxError::ErrInvalidInput(m) && m@
                == blank_key_message(),
    {
        proof {
            use_type_invariant(self);
        }
        let mut i: usize = 0;
        while i < self.components.len()
            invariant
                canonical(self.components@),
                i <= self.components@.len(),
                forall|j: int|
                    0 <= j < i ==> !is_blank_spec(#[trigger] self.components@[j].0@),
            decreases self.components@.len() - i,
        {
            if is_blank(self.components[i].0.as_str()) {
                proof {
                    lemma_entry_in_map(self.components@, i as int);
                }
                return Err(AuthxError::ErrInvalidInput("component keys must be non-empty".to_owned()));
            }
            i = i + 1;
        }
        proof {
            if has_blank_key(self@) {
                let k = choose|k: Seq<char>| self@.contains_key(k) && is_blank_spec(k);
                let j = lemma_map_key_entry(self.components@, k);
            }
        }
        Ok(())
    }

    /// Adds `other` component-wise; amounts saturate at `u128::MAX`.
    pub fn add_assign(&mut self, other: &VectorState)
        ensures
            final(self)@ == merge_add(old(self)@, other@),
            no_saturation(old(self)@, other@) ==> total(final(self).entries()) == total(
                old(self).entries(),
            ) + total(other.entries()),
    {
        proof {
            use_type_invariant(&*self);
            use_type_invariant(other);
        }
        let ghost a = self@;
        let ghost a_total = total(self.entries());
        let mut comps: Vec<(String, u128)> = Vec::new();
        std::mem::swap(&mut comps, &mut self.components);
        let ghost o = other.components@;
        proof {
            assert(o.take(0) =~= Seq::<(String, u128)>::empty());
            assert(merge_add(a, entries_map(o.take(0))) =~= a);
        }
        let mut j: usize = 0;
        while j < other.components.len()
            invariant
                o == other.components@,
                canonical(o),
                j <= o.len(),
                canonical(comps@),
                entries_map(comps@) == merge_add(a, entries_map(o.take(j as int))),
                no_saturation(a, entries_map(o)) ==> total(comps@) == a_total + total(
                    o.take(j as int),
                ),
            decreases o.len() - j,
        {
            let key = &other.components[j].0;
            let amount = other.components[j].1;
            let slot = find_slot(&comps, key.as_str());
            let ghost before = comps@;
            proof {
                lemma_take_next(o, j as int);
                lemma_entry_in_map(o, j as int);
            }
            if slot.1 {
                let cur = comps[slot.0].1;
                proof {
                    lemma_entry_in_map(comps@, slot.0 as int);
                }
                put_amount(&mut comps, key, cur.saturating_add(amount), slot);
            } else {
                put_amount(&mut comps, key, amount, slot);
            }
            proof {
                let m = entries_map(o.take(j as int));
                let m1 = entries_map(o.take(j + 1));
                assert(entries_map(comps@) =~= merge_add(a, m1));
            }
            j = j + 1;
        }
        proof {
            assert(o.take(o.len() as int) =~= o);
        }
        self.components = comps;
    }

    /// Subtracts `other` component-wise, then drops components that reach zero.
    ///
    /// The components of `other` are taken in key order; the first one that
    /// is absent or larger than the amount held is reported, and a refused
    /// subtraction leaves the vector as it was.
    pub fn sub_assign(&mut self, other: &VectorState) -> (r: Result<(), AuthxError>)
        ensures
            r is Ok <==> can_subtract(old(self)@, other@),
            r is Ok ==> final(self)@ == positive_part(minus(old(self)@, other@)),
            r is Ok ==> total(final(self).entries()) + total(other.entries()) == total(
                old(self).entries(),
            ),
            r matches Err(e) ==> ({
                let j = first_shortfall(old(self)@, other.entries());
                &&& 0 <= j < other.entries().len()
                &&& final(self).entries() == old(self).entries()
                &&& is_shortfall_error(e, old(self)@, other.entries()[j])
            }),
    {
        proof {
            use_type_invariant(&*self);
            use_type_invariant(other);
        }
        let saved = self.clone();
        let ghost a = self@;
        let ghost a_total = total(self.entries());
        let mut comps: Vec<(String, u128)> = Vec::new();
        std::mem::swap(&mut comps, &mut self.components);
        let ghost o = other.components@;
        proof {
            assert(o.take(0) =~= Seq::<(String, u128)>::empty());
            assert(minus(a, entries_map(o.take(0))) =~= a);
        }
        let mut j: usize = 0;
        while j < other.components.len()
            invariant
                o == other.components@,
                canonical(o),
                j <= o.len(),
                canonical(comps@),
                entries_map(comps@) == minus(a, entries_map(o.take(j as int))),
                total(comps@) + total(o.take(j as int)) == a_total,
                forall|i: int| 0 <= i < j ==> !shortfall(a, #[trigger] o[i]),
                self.components@.len() == 0,
                a == old(self)@,
                saved.entries() == old(self).entries(),
            decreases o.len() - j,
        {
            proof {
                lemma_take_next(o, j as int);
            }
            let step = subtract_step(
                &mut comps,
                &other.components[j].0,
                other.components[j].1,
                Ghost(a),
                Ghost(entries_map(o.take(j as int))),
            );
            if let Err(e) = step {
                proof {
                    assert((other.components@[j as int].0, other.components@[j as int].1) == o[j as int]);
                    assert(shortfall(a, o[j as int]));
                    lemma_first_shortfall(a, o, j as int);
                    assert(is_shortfall_error(e, a, o[j as int]));
                }
                *self = saved;
                return Err(e);
            }
            j = j + 1;
        }
        proof {
            assert(o.take(o.len() as int) =~= o);
            assert forall|k: Seq<char>| #[trigger] entries_map(o).contains_key(k) implies a.contains_key(
                k,
            ) && a[k] >= entries_map(o)[k] by {
                let i = lemma_map_key_entry(o, k);
                assert(!shortfall(a, o[i]));
            }
        }
        let kept = retain_positive(&comps);
        self.components = kept;
        Ok(())
    }
}

impl Clone for VectorState {
    /// A copy with the same components.
    fn clone(&self) -> (r: Self)
        ensures
            r.entries() == self.entries(),
    {
        proof {
            use_type_invariant(self);
        }
        let mut out: Vec<(String, u128)> = Vec::new();
        let mut i: usize = 0;
        proof {
            assert(self.components@.take(0) =~= out@);
        }
        while i < self.components.len()
            invariant
                i <= self.components@.len(),
                out@ == self.components@.take(i as int),
            decreases self.components@.len() - i,
        {
            out.push((self.components[i].0.clone(), self.components[i].1));
            proof {
                assert(out@ =~= self.components@.take(i + 1));
            }
            i = i + 1;
        }
        proof {
            assert(out@ =~= self.components@);
        }
        VectorState { components: out }
    }
}

/// Subtracts one component, or reports the shortfall and changes nothing.
fn subtract_step(
    comps: &mut Vec<(String, u128)>,
    key: &String,
    amount: u128,
    Ghost(a): Ghost<Map<Seq<char>, u128>>,
    Ghost(m): Ghost<Map<Seq<char>, u128>>,
) -> (r: Result<(), AuthxError>)
    requires
        canonical(old(comps)@),
        entries_map(old(comps)@) == minus(a, m),
        !m.contains_key(key@),
    ensures
        r is Ok <==> !shortfall(a, (*key, amount)),
        r is Ok ==> canonical(final(comps)@) && entries_map(final(comps)@) == minus(
            a,
            m.insert(key@, amount),
        ) && total(final(comps)@) + amount == total(old(comps)@),
        r matches Err(e) ==> final(comps)@ == old(comps)@ && is_shortfall_error(e, a, (*key, amount)),
{
    let slot = find_slot(comps, key.as_str());
    if !slot.1 {
        let mut msg = "component ".to_owned();
        msg.append(key.as_str());
        msg.append(" missing in subtraction");
        return Err(AuthxError::ErrInvalidState(msg));
    }
    let cur = comps[slot.0].1;
    proof {
        lemma_entry_in_map(comps@, slot.0 as int);
    }
    if cur < amount {
        let mut msg = "component ".to_owned();
        msg.append(key.as_str());
        msg.append(" would become negative");
        return Err(AuthxError::ErrInvalidState(msg));
    }
    put_amount(comps, key, cur - amount, slot);
    proof {
        assert(entries_map(comps@) =~= minus(a, m.insert(key@, amount)));
    }
    Ok(())
}

/// The first shortfall is the one found at `j` when none came before it.
proof fn lemma_first_shortfall(a: Map<Seq<char>, u128>, o: Seq<(String, u128)>, j: int)
    requires
        canonical(o),
        0 <= j < o.len(),
        shortfall(a, o[j]),
        forall|i: int| 0 <= i < j ==> !shortfall(a, #[trigger] o[i]),
    ensures
        first_shortfall(a, o) == j,
        !can_subtract(a, entries_map(o)),
{
    let f = first_shortfall(a, o);
    assert(0 <= f < o.len() && shortfall(a, o[f]) && forall|i: int|
        0 <= i < f ==> !shortfall(a, #[trigger] o[i]));
    lemma_entry_in_map(o, j);
}

/// The entries whose amount is not zero, in order.
pub open spec fn positives(s: Seq<(String, u128)>) -> Seq<(String, u128)>
    decreases s.len(),
{
    if s.len() == 0 {
        s
    } else if s.last().1 > 0 {
        positives(s.drop_last()).push(s.last())
    } else {
        positives(s.drop_last())
    }
}

proof fn lemma_positives(s: Seq<(String, u128)>)
    requires
        canonical(s),
    ensures
        canonical(positives(s)),
        entries_map(positives(s)) == positive_part(entries_map(s)),
        total(positives(s)) == total(s),
        forall|a: int|
            0 <= a < positives(s).len() ==> exists|j: int|
                0 <= j < s.len() && #[trigger] s[j] == #[trigger] positives(s)[a],
    decreases s.len(),
{
    if s.len() == 0 {
        assert(entries_map(s) =~= Map::empty());
        assert(positive_part(entries_map(s)) =~= Map::empty());
    } else {
        let n = s.len() - 1;
        let t = s.drop_last();
        let e = s.last();
        lemma_take_next(s, n);
        assert(s.take(n) =~= t);
        assert(s.take(n + 1) =~= s);
        lemma_positives(t);
        let pt = positives(t);
        assert forall|a: int| 0 <= a < pt.len() implies #[trigger] pt[a] != e || a < 0 by {
            let j = choose|j: int| 0 <= j < t.len() && #[trigger] t[j] == #[trigger] pt[a];
            assert(s[j] == t[j]);
        }
        if e.1 > 0 {
            assert forall|a: int| 0 <= a < pt.len() implies key_lt(#[trigger] pt[a].0@, e.0@) by {
                let j = choose|j: int| 0 <= j < t.len() && #[trigger] t[j] == #[trigger] pt[a];
                assert(s[j] == t[j]);
                assert(key_lt(s[j].0@, s[n].0@));
            }
            lemma_insert_entry(pt, pt.len() as int, e);
            assert(pt.insert(pt.len() as int, e) =~= pt.push(e));
            assert(entries_map(positives(s)) =~= positive_part(entries_map(s)));
            assert forall|a: int| 0 <= a < positives(s).len() implies exists|j: int|
                0 <= j < s.len() && #[trigger] s[j] == #[trigger] positives(s)[a] by {
                if a == pt.len() {
                    assert(s[n] == positives(s)[a]);
                } else {
                    let j = choose|j: int| 0 <= j < t.len() && #[trigger] t[j] == #[trigger] pt[a];
                    assert(s[j] == positives(s)[a]);
                }
            }
        } else {
            assert(entries_map(positives(s)) =~= positive_part(entries_map(s)));
            assert forall|a: int| 0 <= a < positives(s).len() implies exists|j: int|
                0 <= j < s.len() && #[trigger] s[j] == #[trigger] positives(s)[a] by {
                let j = choose|j: int| 0 <= j < t.len() && #[trigger] t[j] == #[trigger] pt[a];
                assert(s[j] == positives(s)[a]);
            }
        }
    }
}

/// Keeps the entries whose amount is not zero.
fn retain_positive(comps: &Vec<(String, u128)>) -> (r: Vec<(String, u128)>)
    requires
        canonical(comps@),
    ensures
        canonical(r@),
        entries_map(r@) == positive_part(entries_map(comps@)),
        total(r@) == total(comps@),
{
    let mut out: Vec<(String, u128)> = Vec::new();
    let mut i: usize = 0;
    proof {
        assert(comps@.take(0) =~= Seq::<(String, u128)>::empty());
    }
    while i < comps.len()
        invariant
            i <= comps@.len(),
            out@ == positives(comps@.take(i as int)),
        decreases comps@.len() - i,
    {
        proof {
            assert(comps@.take(i + 1).drop_last() =~= comps@.take(i as int));
        }
        if comps[i].1 > 0 {
            let e = (comps[i].0.clone(), comps[i].1);
            out.push(e);
        }
        i = i + 1;
    }
    proof {
        assert(comps@.take(i as int) =~= comps@);
        lemma_positives(comps@);
    }
    out
}

/// Whether the entries are in strictly ascending key order.
fn is_canonical(comps: &Vec<(String, u128)>) -> (b: bool)
    ensures
        b == canonical(comps@),
{
    let n = comps.len();
    if n == 0 {
        return true;
    }
    let mut i: usize = 1;
    while i < n
        invariant
            n == comps@.len(),
            1 <= i <= n,
            canonical(comps@.take(i as int)),
        decreases n - i,
    {
        match compare_text(comps[i - 1].0.as_str(), comps[i].0.as_str()) {
            KeyOrder::Less => {
                proof {
                    let t = comps@.take(i + 1);
                    assert forall|x: int, y: int| 0 <= x < y < t.len() implies key_lt(
                        #[trigger] t[x].0@,
                        #[trigger] t[y].0@,
                    ) by {
                        assert(comps@.take(i as int)[x] == comps@[x]);
                        if y < i {
                            assert(comps@.take(i as int)[y] == comps@[y]);
                        } else if x < i - 1 {
                            assert(comps@.take(i as int)[i - 1] == comps@[i - 1]);
                            lemma_key_order(comps@[x].0@, comps@[i - 1].0@, comps@[y].0@);
                        }
                    }
                }
                i = i + 1;
            },
            _ => {
                proof {
                    lemma_key_order(comps@[i - 1].0@, comps@[i as int].0@, comps@[i as int].0@);
                }
                return false;
            },
        }
    }
    proof {
        assert(comps@.take(n as int) =~= comps@);
    }
    true
}

} // verus!
