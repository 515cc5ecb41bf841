//! String-keyed tables, held as vectors of pairs and viewed as maps.
//!
//! Every configuration mapping (characters, backgrounds, fonts, text
//! groups, background variants) is such a table. Later entries with the
//! same key overwrite earlier ones, as in the source documents.
use vstd::prelude::*;

verus! {

/// Compares two string slices by their character sequences.
pub fn str_eq(a: &str, b: &str) -> (r: bool)
    ensures
        r == (a@ == b@),
{
    let x = a.to_owned();
    let y = b.to_owned();
    x == y
}

/// The map that a sequence of keyed entries denotes: a later entry with the
/// same key overwrites an earlier one.
pub open spec fn map_of_entries<V: DeepView>(es: Seq<(String, V)>) -> Map<Seq<char>, V::V>
    decreases es.len(),
{
    if es.len() == 0 {
        Map::empty()
    } else {
        map_of_entries(es.drop_last()).insert(es.last().0@, es.last().1.deep_view())
    }
}

/// A string-keyed table of values, exposed as the map of its entries.
#[derive(Debug, Clone, PartialEq)]
pub struct Table<V> {
    pub entries: Vec<(String, V)>,
}

impl<V: DeepView> View for Table<V> {
    type V = Map<Seq<char>, <V as DeepView>::V>;

    open spec fn view(&self) -> Map<Seq<char>, <V as DeepView>::V> {
        map_of_entries(self.entries@)
    }
}

impl<V: DeepView> DeepView for Table<V> {
    type V = Map<Seq<char>, <V as DeepView>::V>;

    open spec fn deep_view(&self) -> Map<Seq<char>, <V as DeepView>::V> {
        map_of_entries(self.entries@)
    }
}

/// A key occurs in the entries exactly when the denoted map holds it.
pub proof fn lemma_map_of_entries_contains<V: DeepView>(es: Seq<(String, V)>, k: Seq<char>)
    ensures
        map_of_entries(es).contains_key(k) <==> exists|i: int| 0 <= i < es.len() && es[i].0@ == k,
    decreases es.len(),
{
    if es.len() > 0 {
        lemma_map_of_entries_contains(es.drop_last(), k);
        if map_of_entries(es).contains_key(k) && es.last().0@ != k {
            let i = choose|i: int| 0 <= i < es.drop_last().len() && es.drop_last()[i].0@ == k;
            assert(es[i].0@ == k);
        }
        if exists|i: int| 0 <= i < es.len() && es[i].0@ == k {
            let i = choose|i: int| 0 <= i < es.len() && es[i].0@ == k;
            if i < es.len() - 1 {
                assert(es.drop_last()[i].0@ == k);
            }
        }
    }
}

/// No two entries share a key.
pub open spec fn entries_distinct<V: DeepView>(es: Seq<(String, V)>) -> bool {
    forall|i: int, j: int| 0 <= i < j < es.len() ==> es[i].0@ != es[j].0@
}

/// With distinct keys, a table holds exactly as many pairs as it has
/// entries: nothing is lost and nothing is invented.
pub proof fn lemma_table_size<V: DeepView>(es: Seq<(String, V)>)
    requires
        entries_distinct(es),
    ensures
        map_of_entries(es).dom().finite(),
        map_of_entries(es).dom().len() == es.len(),
    decreases es.len(),
{
    if es.len() == 0 {
        assert(map_of_entries(es).dom() =~= Set::<Seq<char>>::empty());
    } else {
        assert(entries_distinct(es.drop_last())) by {
            assert forall|i: int, j: int|
                0 <= i < j < es.drop_last().len() implies es.drop_last()[i].0@
                != es.drop_last()[j].0@ by {
                assert(es[i].0@ != es[j].0@);
            }
        }
        lemma_table_size::<V>(es.drop_last());
        lemma_map_of_entries_contains(es.drop_last(), es.last().0@);
        assert(forall|i: int|
            0 <= i < es.len() - 1 ==> es.drop_last()[i].0@ == es[i].0@ && es[i].0@
                != es.last().0@);
        assert(!map_of_entries(es.drop_last()).contains_key(es.last().0@));
        assert(map_of_entries(es).dom() =~= map_of_entries(es.drop_last()).dom().insert(
            es.last().0@,
        ));
    }
}

/// Replacing the entry at `i` by one with the same key denotes the same map
/// as inserting that key anew, provided keys are distinct.
proof fn lemma_map_of_entries_update<V: DeepView>(es: Seq<(String, V)>, i: int, e: (String, V))
    requires
        0 <= i < es.len(),
        es[i].0@ == e.0@,
        entries_distinct(es),
    ensures
        map_of_entries(es.update(i, e)) == map_of_entries(es).insert(e.0@, e.1.deep_view()),
    decreases es.len(),
{
    let up = es.update(i, e);
    if i == es.len() - 1 {
        assert(up.drop_last() =~= es.drop_last());
        assert(up.last() == e);
        assert(map_of_entries(es.update(i, e)) =~= map_of_entries(es).insert(
            e.0@,
            e.1.deep_view(),
        ));
    } else {
        assert(entries_distinct(es.drop_last())) by {
            assert forall|p: int, q: int|
                0 <= p < q < es.drop_last().len() implies es.drop_last()[p].0@
                != es.drop_last()[q].0@ by {
                assert(es[p].0@ != es[q].0@);
            }
        }
        assert(es.drop_last()[i] == es[i]);
        lemma_map_of_entries_update(es.drop_last(), i, e);
        assert(up.drop_last() =~= es.drop_last().update(i, e));
        assert(up.last() == es.last());
        // the two keys differ, so the two inserts commute
        assert(es.last().0@ != e.0@);
        assert(map_of_entries(up) =~= map_of_entries(es).insert(e.0@, e.1.deep_view()));
    }
}

impl<V: DeepView> Table<V> {
    /// No two entries share a key.
    pub open spec fn wf(self) -> bool {
        entries_distinct(self.entries@)
    }

    /// The empty table.
    pub fn new() -> (r: Table<V>)
        ensures
            r@ == Map::<Seq<char>, <V as DeepView>::V>::empty(),
            r.wf(),
            r.entries@.len() == 0,
    {
        Table { entries: Vec::new() }
    }

    /// How many entries the table holds; with `wf`, also the size of its map.
    pub fn len(&self) -> (r: usize)
        ensures
            r == self.entries@.len(),
            self.wf() ==> r == self@.dom().len(),
    {
        proof {
            if self.wf() {
                lemma_table_size::<V>(self.entries@);
            }
        }
        self.entries.len()
    }

    /// Binds `key` to `value`, overwriting any entry with the same key.
    pub fn set(&mut self, key: String, value: V)
        requires
            old(self).wf(),
        ensures
            final(self).wf(),
            final(self)@ == old(self)@.insert(key@, value.deep_view()),
            final(self).entries@.len() <= old(self).entries@.len() + 1,
            forall|p: int|
                0 <= p < final(self).entries@.len() ==> (#[trigger] final(self).entries@[p]) == (
                key,
                value,
                ) || (p < old(self).entries@.len() && final(self).entries@[p] == old(
                    self,
                ).entries@[p]),
    {
        let ghost es0 = self.entries@;
        let n = self.entries.len();
        let mut i: usize = 0;
        while i < n
            invariant
                es0 == old(self).entries@,
                self.entries@ == es0,
                entries_distinct(es0),
                n == es0.len(),
                i <= n,
                forall|j: int| 0 <= j < i ==> es0[j].0@ != key@,
            decreases n - i,
        {
            if str_eq(self.entries[i].0.as_str(), key.as_str()) {
                let ghost e: (String, V) = (key, value);
                proof {
                    let ii = i as int;
                    lemma_map_of_entries_update(es0, ii, e);
                    assert(forall|p: int|
                        0 <= p < es0.len() ==> (#[trigger] es0.update(ii, e)[p]).0@
                            == es0[p].0@);
                }
                self.entries.set(i, (key, value));
                proof {
                    assert(self.entries@ == es0.update(i as int, e));
                }
                return ;
            }
            i += 1;
        }
        proof {
            let e = (key, value);
            assert(es0.push(e).drop_last() =~= es0);
            assert(es0.push(e).last() == e);
            assert(map_of_entries(es0.push(e)) =~= map_of_entries(es0).insert(
                key@,
                value.deep_view(),
            ));
            assert(forall|p: int|
                0 <= p < es0.len() ==> (#[trigger] es0.push(e)[p]).0@ == es0[p].0@);
            assert(es0.push(e)[es0.len() as int].0@ == key@);
        }
        self.entries.push((key, value));
    }

    /// Looks the key up: the value the table's map binds it to, if any.
    pub fn get(&self, key: &str) -> (r: Option<&V>)
        ensures
            match r {
                Some(v) => self@.contains_key(key@) && v.deep_view() == self@[key@],
                None => !self@.contains_key(key@),
            },
    {
        let ghost es = self.entries@;
        let ghost full = map_of_entries(es);
        proof {
            assert(es.take(es.len() as int) =~= es);
        }
        let mut j = self.entries.len();
        while j > 0
            invariant
                j <= self.entries@.len(),
                es == self.entries@,
                full == map_of_entries(es),
                full.contains_key(key@) == map_of_entries(es.take(j as int)).contains_key(key@),
                full.contains_key(key@) ==> full[key@] == map_of_entries(es.take(j as int))[key@],
            decreases j,
        {
            j -= 1;
            proof {
                assert(es.take(j + 1).drop_last() =~= es.take(j as int));
                assert(es.take(j + 1).last() == es[j as int]);
            }
            if str_eq(self.entries[j].0.as_str(), key) {
                return Some(&self.entries[j].1);
            }
        }
        proof {
            assert(es.take(0) =~= Seq::<(String, V)>::empty());
        }
        None
    }
}

} // verus!
