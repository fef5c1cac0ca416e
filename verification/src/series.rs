//! Per-key time series and the store that maps metric keys to them.
//!
//! A `Timeseries` owns an append-only sequence of `(step, value)` points —
//! the step of a point is its insertion index within that series — together
//! with running extrema over the values, taken in the sign-magnitude order
//! on value encodings and started from the infinity sentinels. A `SeriesMap`
//! maps each distinct key to exactly one series; keys are created on first
//! insertion and never removed.

use crate::keys::{lemma_str_lt_irrefl, lemma_str_lt_trans, str_cmp, str_lt};
use crate::value::{spec_val_min, spec_val_max, val_le, val_min, val_max, INF_BITS, NEG_INF_BITS};
use vstd::prelude::*;

verus! {

// ---------------------------------------------------------------------------
// Running extrema as folds
// ---------------------------------------------------------------------------
/// The running minimum of a value sequence, started from the positive
/// infinity sentinel.
pub open spec fn fold_min(s: Seq<u64>) -> u64
    decreases s.len(),
{
    if s.len() == 0 {
        INF_BITS
    } else {
        spec_val_min(fold_min(s.drop_last()), s.last())
    }
}

/// The running maximum of a value sequence, started from the negative
/// infinity sentinel.
pub open spec fn fold_max(s: Seq<u64>) -> u64
    decreases s.len(),
{
    if s.len() == 0 {
        NEG_INF_BITS
    } else {
        spec_val_max(fold_max(s.drop_last()), s.last())
    }
}

pub proof fn lemma_fold_min_le(s: Seq<u64>, i: int)
    requires
        0 <= i < s.len(),
    ensures
        val_le(fold_min(s), s[i]),
    decreases s.len(),
{
    if i < s.len() - 1 {
        lemma_fold_min_le(s.drop_last(), i);
    }
}

pub proof fn lemma_fold_max_ge(s: Seq<u64>, i: int)
    requires
        0 <= i < s.len(),
    ensures
        val_le(s[i], fold_max(s)),
    decreases s.len(),
{
    if i < s.len() - 1 {
        lemma_fold_max_ge(s.drop_last(), i);
    }
}

// ---------------------------------------------------------------------------
// Timeseries
// ---------------------------------------------------------------------------
/// The value history of one metric key: `(step, value)` points in insertion
/// order plus running extrema of the values.
pub struct Timeseries {
    data_points: Vec<(u64, u64)>,
    min_val: u64,
    max_val: u64,
}

impl Timeseries {
    /// The stored points, in insertion order.
    pub closed spec fn spec_points(&self) -> Seq<(u64, u64)> {
        self.data_points@
    }

    /// The stored values, in insertion order.
    pub open spec fn spec_values(&self) -> Seq<u64> {
        self.spec_points().map_values(|p: (u64, u64)| p.1)
    }

    /// The running minimum.
    pub closed spec fn spec_min(&self) -> u64 {
        self.min_val
    }

    /// The running maximum.
    pub closed spec fn spec_max(&self) -> u64 {
        self.max_val
    }

    /// The most recently stored value, if any.
    pub open spec fn spec_last_value(&self) -> Option<u64> {
        if self.spec_points().len() == 0 {
            None
        } else {
            Some(self.spec_points().last().1)
        }
    }

    /// Well-formedness: the step of every point is its index, and the
    /// extrema fields are exactly the folds of the stored values.
    pub closed spec fn wf(&self) -> bool {
        &&& forall|i: int|
            0 <= i < self.data_points@.len() ==> (#[trigger] self.data_points@[i]).0 == i as u64
        &&& self.min_val == fold_min(self.spec_values())
        &&& self.max_val == fold_max(self.spec_values())
    }

    /// In a well-formed series the step of every point equals the number of
    /// points inserted before it.
    pub proof fn lemma_steps_are_indices(&self)
        requires
            self.wf(),
        ensures
            forall|i: int|
                0 <= i < self.spec_points().len() ==> (#[trigger] self.spec_points()[i]).0
                    == i as u64,
    {
    }

    /// In a well-formed series every stored value lies between the running
    /// extrema.
    pub proof fn lemma_extrema_bound(&self)
        requires
            self.wf(),
        ensures
            forall|i: int|
                0 <= i < self.spec_values().len() ==> val_le(
                    self.spec_min(),
                    #[trigger] self.spec_values()[i],
                ) && val_le(self.spec_values()[i], self.spec_max()),
    {
        assert forall|i: int| 0 <= i < self.spec_values().len() implies val_le(
            self.spec_min(),
            #[trigger] self.spec_values()[i],
        ) && val_le(self.spec_values()[i], self.spec_max()) by {
            lemma_fold_min_le(self.spec_values(), i);
            lemma_fold_max_ge(self.spec_values(), i);
        }
    }

    /// Number of stored points.
    pub fn len(&self) -> (r: usize)
        ensures
            r == self.spec_points().len(),
    {
        self.data_points.len()
    }

    /// The running minimum of the stored values.
    pub fn get_min(&self) -> (r: u64)
        ensures
            r == self.spec_min(),
    {
        self.min_val
    }

    /// The running maximum of the stored values.
    pub fn get_max(&self) -> (r: u64)
        ensures
            r == self.spec_max(),
    {
        self.max_val
    }

    /// The stored points.
    pub fn get_data(&self) -> (r: &Vec<(u64, u64)>)
        ensures
            r@ == self.spec_points(),
    {
        &self.data_points
    }

    /// The most recently stored value, if any.
    pub fn last_value(&self) -> (r: Option<u64>)
        ensures
            r == self.spec_last_value(),
    {
        let n = self.data_points.len();
        if n > 0 {
            Some(self.data_points[n - 1].1)
        } else {
            None
        }
    }

    /// Appends `value` at the next step and widens the running extrema to
    /// cover it: the new minimum is never above the old one, the new maximum
    /// never below.
    pub fn append_value(&mut self, value: u64)
        requires
            old(self).wf(),
        ensures
            final(self).wf(),
            final(self).spec_points() == old(self).spec_points().push(
                (old(self).spec_points().len() as u64, value),
            ),
            final(self).spec_min() == spec_val_min(old(self).spec_min(), value),
            final(self).spec_max() == spec_val_max(old(self).spec_max(), value),
            val_le(final(self).spec_min(), old(self).spec_min()),
            val_le(old(self).spec_max(), final(self).spec_max()),
    {
        let step = self.data_points.len() as u64;
        self.data_points.push((step, value));
        self.min_val = val_min(self.min_val, value);
        self.max_val = val_max(self.max_val, value);
        proof {
            assert(final(self).spec_values() =~= old(self).spec_values().push(value));
            assert(final(self).spec_values().drop_last() =~= old(self).spec_values());
        }
    }
}

impl Default for Timeseries {
    /// An empty series: no points, extrema at the infinity sentinels.
    fn default() -> (r: Self)
        ensures
            r.wf(),
            r.spec_points() == Seq::<(u64, u64)>::empty(),
            r.spec_min() == INF_BITS,
            r.spec_max() == NEG_INF_BITS,
    {
        let r = Timeseries { data_points: Vec::new(), min_val: INF_BITS, max_val: NEG_INF_BITS };
        proof {
            assert(r.spec_values() =~= Seq::<u64>::empty());
        }
        r
    }
}

// ---------------------------------------------------------------------------
// SeriesMap
// ---------------------------------------------------------------------------
/// The keys of a key/series sequence are strictly sorted (hence distinct).
pub open spec fn sorted_keys(s: Seq<(String, Timeseries)>) -> bool {
    forall|i: int, j: int|
        #![trigger s[i], s[j]]
        0 <= i < j < s.len() ==> str_lt(s[i].0@, s[j].0@)
}

/// Index of the entry holding key `k`, or `-1` when there is none.
pub open spec fn find_idx(s: Seq<(String, Timeseries)>, k: Seq<char>) -> int
    decreases s.len(),
{
    if s.len() == 0 {
        -1
    } else if s[0].0@ == k {
        0
    } else {
        let r = find_idx(s.drop_first(), k);
        if r == -1 {
            -1
        } else {
            r + 1
        }
    }
}

pub proof fn lemma_find_idx(s: Seq<(String, Timeseries)>, k: Seq<char>)
    ensures
        -1 <= find_idx(s, k) < s.len(),
        find_idx(s, k) >= 0 ==> s[find_idx(s, k)].0@ == k,
        find_idx(s, k) == -1 ==> forall|j: int| 0 <= j < s.len() ==> (#[trigger] s[j]).0@ != k,
    decreases s.len(),
{
    if s.len() > 0 && s[0].0@ != k {
        lemma_find_idx(s.drop_first(), k);
        assert forall|j: int| find_idx(s, k) == -1 && 0 <= j < s.len() implies (#[trigger] s[j]).0@
            != k by {
            if j > 0 {
                assert(s.drop_first()[j - 1] == s[j]);
            }
        }
    }
}

/// With sorted (hence distinct) keys, any entry holding key `k` is the one
/// `find_idx` names.
pub proof fn lemma_find_idx_unique(s: Seq<(String, Timeseries)>, k: Seq<char>, j: int)
    requires
        sorted_keys(s),
        0 <= j < s.len(),
        s[j].0@ == k,
    ensures
        find_idx(s, k) == j,
{
    lemma_find_idx(s, k);
    let f = find_idx(s, k);
    if f != j {
        lemma_str_lt_irrefl(k);
    }
}

/// Mapping from each metric key to its series. Keys are case-sensitive and
/// kept in sorted order; a key is created on first insertion and never
/// removed.
pub struct SeriesMap {
    entries: Vec<(String, Timeseries)>,
}

impl View for SeriesMap {
    type V = Map<Seq<char>, Timeseries>;

    closed spec fn view(&self) -> Map<Seq<char>, Timeseries> {
        Map::new(
            |k: Seq<char>| find_idx(self.entries@, k) >= 0,
            |k: Seq<char>| self.entries@[find_idx(self.entries@, k)].1,
        )
    }
}

/// The points of key `k` in map `m`, the empty sequence when `k` is absent.
pub open spec fn points_of(m: Map<Seq<char>, Timeseries>, k: Seq<char>) -> Seq<(u64, u64)> {
    if m.contains_key(k) {
        m[k].spec_points()
    } else {
        Seq::empty()
    }
}

/// The running minimum of key `k` in map `m`, the sentinel when absent.
pub open spec fn min_of(m: Map<Seq<char>, Timeseries>, k: Seq<char>) -> u64 {
    if m.contains_key(k) {
        m[k].spec_min()
    } else {
        INF_BITS
    }
}

/// The running maximum of key `k` in map `m`, the sentinel when absent.
pub open spec fn max_of(m: Map<Seq<char>, Timeseries>, k: Seq<char>) -> u64 {
    if m.contains_key(k) {
        m[k].spec_max()
    } else {
        NEG_INF_BITS
    }
}

/// What one store insertion guarantees: the key is present afterwards, no
/// other key's series changes, and the key's series — empty beforehand when
/// the key was absent — has the value appended at its next step, with the
/// extrema widened over it.
pub open spec fn series_insert_post(
    oldm: Map<Seq<char>, Timeseries>,
    newm: Map<Seq<char>, Timeseries>,
    key: Seq<char>,
    value: u64,
) -> bool {
    &&& newm.contains_key(key)
    &&& forall|kk: Seq<char>| kk != key ==> newm.contains_key(kk) == oldm.contains_key(kk)
    &&& forall|kk: Seq<char>|
        kk != key && oldm.contains_key(kk) ==> newm[kk] == oldm[kk]
    &&& newm[key].wf()
    &&& newm[key].spec_points() == points_of(oldm, key).push(
        (points_of(oldm, key).len() as u64, value),
    )
    &&& newm[key].spec_min() == spec_val_min(min_of(oldm, key), value)
    &&& newm[key].spec_max() == spec_val_max(max_of(oldm, key), value)
}

impl SeriesMap {
    #[verifier::type_invariant]
    spec fn inv(&self) -> bool {
        &&& sorted_keys(self.entries@)
        &&& forall|i: int| 0 <= i < self.entries@.len() ==> (#[trigger] self.entries@[i]).1.wf()
    }

    /// Number of distinct keys.
    pub closed spec fn spec_num_keys(&self) -> nat {
        self.entries@.len()
    }

    /// The keys in sorted order.
    pub closed spec fn spec_keys(&self) -> Seq<Seq<char>> {
        self.entries@.map_values(|e: (String, Timeseries)| e.0@)
    }

    /// An empty store.
    pub fn new() -> (r: Self)
        ensures
            r@ == Map::<Seq<char>, Timeseries>::empty(),
            r.spec_num_keys() == 0,
    {
        let r = SeriesMap { entries: Vec::new() };
        proof {
            assert(r@ =~= Map::<Seq<char>, Timeseries>::empty());
        }
        r
    }

    /// Number of distinct keys.
    pub fn len(&self) -> (r: usize)
        ensures
            r == self.spec_num_keys(),
    {
        self.entries.len()
    }

    /// The series of `key`, or `None` when no value was ever inserted under
    /// it. A returned series is well-formed.
    pub fn get(&self, key: &str) -> (r: Option<&Timeseries>)
        ensures
            match r {
                Some(t) => self@.contains_key(key@) && *t == self@[key@] && t.wf(),
                None => !self@.contains_key(key@),
            },
    {
        proof {
            use_type_invariant(&*self);
        }
        let n = self.entries.len();
        let mut i: usize = 0;
        loop
            invariant_except_break
                self.inv(),
                n == self.entries@.len(),
                i <= n,
                forall|j: int| 0 <= j < i ==> (#[trigger] self.entries@[j]).0@ != key@,
            ensures
                (exists|j: int|
                    0 <= j < self.entries@.len() && (#[trigger] self.entries@[j]).0@ == key@)
                    ==> false,
                forall|j: int| 0 <= j < self.entries@.len() ==> (#[trigger] self.entries@[j]).0@
                    != key@,
            decreases n - i,
        {
            if i == n {
                break ;
            }
            if crate::keys::str_eq(self.entries[i].0.as_str(), key) {
                proof {
                    lemma_find_idx_unique(self.entries@, key@, i as int);
                }
                return Some(&self.entries[i].1);
            }
            i += 1;
        }
        proof {
            lemma_find_idx(self.entries@, key@);
            if find_idx(self.entries@, key@) >= 0 {
                assert(self.entries@[find_idx(self.entries@, key@)].0@ == key@);
            }
        }
        None
    }

    /// The keys, sorted ascending in the code-point order; exactly the keys
    /// the store contains.
    pub fn keys(&self) -> (r: Vec<String>)
        ensures
            r@.len() == self.spec_num_keys(),
            forall|i: int| 0 <= i < r@.len() ==> (#[trigger] r@[i])@ == self.spec_keys()[i],
            forall|i: int, j: int|
                #![trigger r@[i], r@[j]]
                0 <= i < j < r@.len() ==> str_lt(r@[i]@, r@[j]@),
            forall|i: int| 0 <= i < r@.len() ==> self@.contains_key((#[trigger] r@[i])@),
            forall|k: Seq<char>|
                self@.contains_key(k) ==> exists|i: int| 0 <= i < r@.len() && (#[trigger] r@[i])@
                    == k,
    {
        proof {
            use_type_invariant(&*self);
        }
        let n = self.entries.len();
        let mut r: Vec<String> = Vec::new();
        let mut i: usize = 0;
        while i < n
            invariant
                self.inv(),
                n == self.entries@.len(),
                i <= n,
                r@.len() == i,
                forall|j: int| 0 <= j < i ==> (#[trigger] r@[j])@ == self.entries@[j].0@,
            decreases n - i,
        {
            r.push(self.entries[i].0.clone());
            i += 1;
        }
        proof {
            assert forall|i2: int| 0 <= i2 < r@.len() implies self@.contains_key(
                (#[trigger] r@[i2])@,
            ) by {
                lemma_find_idx_unique(self.entries@, r@[i2]@, i2);
            }
            assert forall|k: Seq<char>| self@.contains_key(k) implies exists|i2: int|
                0 <= i2 < r@.len() && (#[trigger] r@[i2])@ == k by {
                lemma_find_idx(self.entries@, k);
                let f = find_idx(self.entries@, k);
                assert(0 <= f < r@.len() && r@[f]@ == k);
            }
        }
        r
    }

    /// Inserts an (already smoothed) value under `key`: the series of `key`
    /// — created empty when absent — gets the value appended at its next
    /// step and its extrema widened; every other key's series is untouched.
    pub fn insert(&mut self, key: &str, value: u64)
        ensures
            series_insert_post(old(self)@, final(self)@, key@, value),
            final(self).spec_num_keys() == old(self).spec_num_keys() + (if old(
                self,
            )@.contains_key(key@) {
                0int
            } else {
                1int
            }),
    {
        proof {
            use_type_invariant(&*self);
        }
        let ghost old_entries = self.entries@;
        let n = self.entries.len();
        let mut i: usize = 0;
        loop
            invariant_except_break
                self.inv(),
                self.entries@ == old_entries,
                n == old_entries.len(),
                i <= n,
                forall|j: int| 0 <= j < i ==> str_lt((#[trigger] old_entries[j]).0@, key@),
            ensures
                self.inv(),
                self.entries@ == old_entries,
                n == old_entries.len(),
                i <= n,
                forall|j: int| 0 <= j < i ==> str_lt((#[trigger] old_entries[j]).0@, key@),
                i < n ==> !str_lt(old_entries[i as int].0@, key@),
            decreases n - i,
        {
            if i == n {
                break ;
            }
            if str_cmp(self.entries[i].0.as_str(), key) == -1 {
                i += 1;
            } else {
                break ;
            }
        }
        let hit = i < n && str_cmp(self.entries[i].0.as_str(), key) == 0;
        let mut entries: Vec<(String, Timeseries)> = Vec::new();
        std::mem::swap(&mut entries, &mut self.entries);
        if hit {
            let (k, mut t) = entries.remove(i);
            t.append_value(value);
            entries.insert(i, (k, t));
            proof {
                assert(entries@ =~= old_entries.update(i as int, entries@[i as int]));
                assert(entries@[i as int].0@ == key@);
                assert(sorted_keys(entries@)) by {
                    assert forall|a: int, b: int|
                        #![trigger entries@[a], entries@[b]]
                        0 <= a < b < entries@.len() implies str_lt(
                        entries@[a].0@,
                        entries@[b].0@,
                    ) by {
                        assert(entries@[a].0@ == old_entries[a].0@);
                        assert(entries@[b].0@ == old_entries[b].0@);
                    }
                }
            }
        } else {
            if i < n {
                let c2 = str_cmp(key, entries[i].0.as_str());
                proof {
                    assert(old_entries[i as int].0@ != key@);
                    assert(c2 != 1);
                    assert(str_lt(key@, old_entries[i as int].0@));
                }
            }
            let mut t = Timeseries::default();
            t.append_value(value);
            entries.insert(i, (String::from_str(key), t));
            proof {
                assert(entries@.len() == old_entries.len() + 1);
                assert(entries@[i as int].0@ == key@);
                assert forall|j: int| 0 <= j < entries@.len() && j != i implies (
                #[trigger] entries@[j]) == (if j < i {
                    old_entries[j]
                } else {
                    old_entries[j - 1]
                }) by {}
                assert(sorted_keys(entries@)) by {
                    assert forall|a: int, b: int|
                        #![trigger entries@[a], entries@[b]]
                        0 <= a < b < entries@.len() implies str_lt(
                        entries@[a].0@,
                        entries@[b].0@,
                    ) by {
                        if a == i {
                            // b > i, so the entry at b sits at old index b - 1 >= i
                            assert(i < n);
                            assert(str_lt(key@, old_entries[i as int].0@));
                            if b - 1 > i {
                                lemma_str_lt_trans(
                                    key@,
                                    old_entries[i as int].0@,
                                    old_entries[b - 1].0@,
                                );
                            }
                        } else if b == i {
                            // entries[a] = old[a], a < i: str_lt(old[a], key)
                        } else {
                        }
                    }
                }
                assert forall|j: int| 0 <= j < old_entries.len() implies (
                #[trigger] old_entries[j]).0@ != key@ by {
                    if old_entries[j].0@ == key@ {
                        if j < i {
                            lemma_str_lt_irrefl(key@);
                        } else if j == i {
                            // hit would have been true
                        } else {
                            assert(str_lt(old_entries[i as int].0@, old_entries[j].0@));
                        }
                    }
                }
            }
        }
        std::mem::swap(&mut entries, &mut self.entries);
        proof {
            lemma_insert_view_goals(old_entries, self.entries@, key@, i as int, hit);
        }
    }
}

/// Keys are independent: inserting under two distinct keys — distinct also
/// when they differ only in letter case — creates two separate series, each
/// holding exactly its own value at step zero.
pub proof fn lemma_distinct_keys_independent(
    m0: Map<Seq<char>, Timeseries>,
    m1: Map<Seq<char>, Timeseries>,
    m2: Map<Seq<char>, Timeseries>,
    k1: Seq<char>,
    k2: Seq<char>,
    v1: u64,
    v2: u64,
)
    requires
        k1 != k2,
        !m0.contains_key(k1),
        !m0.contains_key(k2),
        series_insert_post(m0, m1, k1, v1),
        series_insert_post(m1, m2, k2, v2),
    ensures
        m2.contains_key(k1) && m2.contains_key(k2),
        m2[k1].spec_points() == seq![(0u64, v1)],
        m2[k2].spec_points() == seq![(0u64, v2)],
{
    assert(points_of(m0, k1) =~= Seq::<(u64, u64)>::empty());
    assert(m1[k1].spec_points() =~= seq![(0u64, v1)]);
    assert(m2[k1] == m1[k1]);
    assert(!m1.contains_key(k2));
    assert(points_of(m1, k2) =~= Seq::<(u64, u64)>::empty());
    assert(m2[k2].spec_points() =~= seq![(0u64, v2)]);
}

/// A store insertion only ever widens the extrema of the touched series:
/// the running minimum never rises, the running maximum never falls. Chained
/// over any sequence of insertions (the order is transitive), extrema never
/// narrow.
pub proof fn lemma_extrema_widen(
    m0: Map<Seq<char>, Timeseries>,
    m1: Map<Seq<char>, Timeseries>,
    key: Seq<char>,
    value: u64,
)
    requires
        series_insert_post(m0, m1, key, value),
    ensures
        val_le(m1[key].spec_min(), min_of(m0, key)),
        val_le(max_of(m0, key), m1[key].spec_max()),
{
}

/// Relates the view of the mutated entry sequence to the old one, for both
/// the hit (existing key) and the miss (fresh key at position `i`) shape.
proof fn lemma_insert_view_goals(
    old_entries: Seq<(String, Timeseries)>,
    new_entries: Seq<(String, Timeseries)>,
    key: Seq<char>,
    i: int,
    hit: bool,
)
    requires
        sorted_keys(old_entries),
        sorted_keys(new_entries),
        hit ==> {
            &&& 0 <= i < old_entries.len()
            &&& new_entries =~= old_entries.update(i, new_entries[i])
            &&& old_entries[i].0@ == key
            &&& new_entries[i].0@ == key
        },
        !hit ==> {
            &&& 0 <= i <= old_entries.len()
            &&& new_entries.len() == old_entries.len() + 1
            &&& new_entries[i].0@ == key
            &&& forall|j: int|
                0 <= j < new_entries.len() && j != i ==> (#[trigger] new_entries[j]) == (if j < i {
                    old_entries[j]
                } else {
                    old_entries[j - 1]
                })
            &&& forall|j: int| 0 <= j < old_entries.len() ==> (#[trigger] old_entries[j]).0@ != key
        },
    ensures
        find_idx(new_entries, key) == i,
        find_idx(old_entries, key) == (if hit {
            i
        } else {
            -1
        }),
        forall|kk: Seq<char>|
            kk != key ==> ((find_idx(new_entries, kk) >= 0) == (find_idx(old_entries, kk) >= 0)),
        forall|kk: Seq<char>|
            kk != key && find_idx(old_entries, kk) >= 0 ==> new_entries[find_idx(
                new_entries,
                kk,
            )] == old_entries[find_idx(old_entries, kk)],
{
    lemma_find_idx_unique(new_entries, key, i);
    if hit {
        lemma_find_idx_unique(old_entries, key, i);
    } else {
        lemma_find_idx(old_entries, key);
        if find_idx(old_entries, key) >= 0 {
            assert(old_entries[find_idx(old_entries, key)].0@ == key);
            assert(false);
        }
    }
    assert forall|kk: Seq<char>| kk != key implies ((find_idx(new_entries, kk) >= 0) == (find_idx(
        old_entries,
        kk,
    ) >= 0)) by {
        lemma_find_idx(new_entries, kk);
        lemma_find_idx(old_entries, kk);
        let fo = find_idx(old_entries, kk);
        let fn_ = find_idx(new_entries, kk);
        if fo >= 0 {
            if hit {
                lemma_find_idx_unique(new_entries, kk, fo);
            } else {
                if fo < i {
                    lemma_find_idx_unique(new_entries, kk, fo);
                } else {
                    lemma_find_idx_unique(new_entries, kk, fo + 1);
                }
            }
        }
        if fn_ >= 0 && fo == -1 {
            if hit {
                assert(old_entries[fn_].0@ == kk);
            } else {
                if fn_ < i {
                    assert(old_entries[fn_].0@ == kk);
                } else {
                    assert(fn_ > i);
                    assert(old_entries[fn_ - 1].0@ == kk);
                }
            }
        }
    }
    assert forall|kk: Seq<char>|
        kk != key && find_idx(old_entries, kk) >= 0 implies new_entries[find_idx(
        new_entries,
        kk,
    )] == old_entries[find_idx(old_entries, kk)] by {
        lemma_find_idx(old_entries, kk);
        let fo = find_idx(old_entries, kk);
        if hit {
            lemma_find_idx_unique(new_entries, kk, fo);
        } else {
            if fo < i {
                lemma_find_idx_unique(new_entries, kk, fo);
            } else {
                lemma_find_idx_unique(new_entries, kk, fo + 1);
            }
        }
    }
}

} // verus!
