//! Records kept in a `Vec` and found by their id: the most recent record
//! with a given id is the one that counts.
use vstd::prelude::*;

verus! {

/// A record with a numeric id.
pub trait Keyed {
    spec fn key(&self) -> u64;

    fn get_key(&self) -> (r: u64)
        ensures
            r == self.key(),
    ;
}

/// No two records of `s` share an id.
pub open spec fn ids_distinct<T: Keyed>(s: Seq<T>) -> bool {
    forall|i: int, j: int| 0 <= i < j < s.len() ==> #[trigger] s[i].key() != #[trigger] s[j].key()
}

/// Index of the last record of `s` with id `id`.
pub open spec fn lookup<T: Keyed>(s: Seq<T>, id: u64) -> Option<int>
    decreases s.len(),
{
    if s.len() == 0 {
        None
    } else if s.last().key() == id {
        Some(s.len() - 1)
    } else {
        lookup(s.drop_last(), id)
    }
}

pub proof fn lemma_lookup_bounds<T: Keyed>(s: Seq<T>, id: u64)
    ensures
        lookup(s, id) matches Some(i) ==> 0 <= i < s.len() && s[i].key() == id,
        lookup(s, id) is None ==> forall|j: int| 0 <= j < s.len() ==> s[j].key() != id,
    decreases s.len(),
{
    if s.len() > 0 {
        lemma_lookup_bounds(s.drop_last(), id);
        if s.last().key() != id {
            assert forall|j: int| 0 <= j < s.len() - 1 implies s[j] == s.drop_last()[j] by {}
        }
    }
}

/// Looking up after a record is replaced in place by one with the same id finds the same index.
pub proof fn lemma_lookup_update<T: Keyed>(s: Seq<T>, i: int, t: T, id: u64)
    requires
        0 <= i < s.len(),
        t.key() == s[i].key(),
    ensures
        lookup(s.update(i, t), id) == lookup(s, id),
    decreases s.len(),
{
    if i < s.len() - 1 {
        assert(s.update(i, t).drop_last() =~= s.drop_last().update(i, t));
        lemma_lookup_update(s.drop_last(), i, t, id);
    } else {
        assert(s.update(i, t).drop_last() =~= s.drop_last());
    }
}

/// Looking up after a push finds the pushed record for its id, and the old one otherwise.
pub proof fn lemma_lookup_push<T: Keyed>(s: Seq<T>, t: T, id: u64)
    ensures
        lookup(s.push(t), id) == if t.key() == id { Some(s.len() as int) } else { lookup(s, id) },
{
    assert(s.push(t).drop_last() =~= s);
}

/// Where ids are distinct, the record at `j` is the one found for its id.
pub proof fn lemma_lookup_distinct<T: Keyed>(s: Seq<T>, j: int)
    requires
        ids_distinct(s),
        0 <= j < s.len(),
    ensures
        lookup(s, s[j].key()) == Some(j),
    decreases s.len(),
{
    if j < s.len() - 1 {
        let d = s.drop_last();
        assert(s[j].key() != s[s.len() - 1].key());
        assert forall|a: int, b: int| 0 <= a < b < d.len() implies #[trigger] d[a].key() != #[trigger] d[b].key() by {
            assert(d[a] == s[a] && d[b] == s[b]);
        }
        assert(d[j] == s[j]);
        lemma_lookup_distinct(d, j);
    }
}

/// Finds the index of the last record with id `id`.
pub fn find<T: Keyed>(v: &Vec<T>, id: u64) -> (r: Option<usize>)
    ensures
        r matches Some(i) ==> lookup(v@, id) == Some(i as int),
        r is None ==> lookup(v@, id) is None,
{
    let mut i: usize = v.len();
    assert(v@.subrange(0, i as int) =~= v@);
    while i > 0
        invariant
            i <= v@.len(),
            lookup(v@, id) == lookup(v@.subrange(0, i as int), id),
        decreases i,
    {
        let ghost s = v@.subrange(0, i as int);
        assert(s.drop_last() =~= v@.subrange(0, i - 1));
        if v[i - 1].get_key() == id {
            return Some(i - 1);
        }
        i = i - 1;
    }
    assert(v@.subrange(0, 0) =~= Seq::<T>::empty());
    None
}

} // verus!
