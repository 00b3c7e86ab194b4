//! Tables kept in the order of arrival: sequences of entries in which no key
//! occurs twice. A new entry takes the place of the entry with its key, if
//! there is one, and stands last.

use vstd::prelude::*;
use crate::search::{lemma_filter_kept, lemma_filter_next, origins, thinned_front};

verus! {

/// An entry of a table: a value that carries the key under which it is
/// kept.
pub trait Keyed {
    /// What the key is made of.
    type Key;

    /// The key of the entry.
    spec fn key(&self) -> Self::Key;

    /// Hands out the key of the entry.
    fn own_key(&self) -> (k: Self::Key)
        ensures
            k == self.key(),
    ;

    /// Tells whether the entry is kept under `key`.
    fn has_key(&self, key: &Self::Key) -> (r: bool)
        ensures
            r == (self.key() == *key),
    ;
}

/// No two entries of `s` have the same key.
pub open spec fn distinct_keys<T: Keyed>(s: Seq<T>) -> bool {
    forall|i: int, j: int|
        0 <= i < j < s.len() ==> (#[trigger] s[i]).key() != (#[trigger] s[j]).key()
}

/// Holds for the entries whose key is not `key`.
pub open spec fn key_is_not<T: Keyed>(key: T::Key) -> spec_fn(T) -> bool {
    |e: T| e.key() != key
}

/// The entries but the one kept under `key`.
pub open spec fn without<T: Keyed>(s: Seq<T>, key: T::Key) -> Seq<T> {
    s.filter(key_is_not(key))
}

/// The table with `item` in place of any entry that had its key, and as the
/// entry that arrived last.
pub open spec fn with<T: Keyed>(s: Seq<T>, item: T) -> Seq<T> {
    without(s, item.key()).push(item)
}

/// The entry kept under `key`, if there is one.
pub open spec fn entry<T: Keyed>(s: Seq<T>, key: T::Key) -> Option<T>
    decreases s.len(),
{
    if s.len() == 0 {
        None
    } else if s.last().key() == key {
        Some(s.last())
    } else {
        entry(s.drop_last(), key)
    }
}

/// A filter keeps the keys of a table unique, and keeps nothing that was
/// not there or for which `pred` does not hold.
pub proof fn lemma_filter_distinct<T: Keyed>(s: Seq<T>, pred: spec_fn(T) -> bool)
    requires
        distinct_keys(s),
    ensures
        distinct_keys(s.filter(pred)),
        s.filter(pred).len() <= s.len(),
        forall|i: int|
            0 <= i < s.filter(pred).len() ==> {
                &&& pred(#[trigger] s.filter(pred)[i])
                &&& s.contains(s.filter(pred)[i])
            },
{
    lemma_filter_kept(s, pred);
    let kept = s.filter(pred);
    let origin = origins(s, pred);
    assert forall|i: int, j: int| 0 <= i < j < kept.len() implies (#[trigger] kept[i]).key() != (
    #[trigger] kept[j]).key() by {
        assert(origin[i] < origin[j]);
        assert(kept[i] == s[origin[i]]);
        assert(kept[j] == s[origin[j]]);
    }
    assert forall|i: int| 0 <= i < kept.len() implies pred(#[trigger] kept[i]) && s.contains(
        kept[i],
    ) by {
        assert(kept[i] == s[origin[i]]);
    }
}

/// Thinning the front of a table keeps its keys unique.
pub proof fn lemma_thinned_front_distinct<T: Keyed>(s: Seq<T>, k: int, pred: spec_fn(T) -> bool)
    requires
        distinct_keys(s),
        0 <= k <= s.len(),
    ensures
        distinct_keys(thinned_front(s, k, pred)),
{
    let front = s.take(k).filter(pred);
    let all = thinned_front(s, k, pred);
    lemma_filter_kept(s.take(k), pred);
    let origin = origins(s.take(k), pred);
    assert forall|i: int, j: int| 0 <= i < j < all.len() implies (#[trigger] all[i]).key() != (
    #[trigger] all[j]).key() by {
        let m = if i < front.len() {
            origin[i]
        } else {
            k + (i - front.len())
        };
        let n = if j < front.len() {
            origin[j]
        } else {
            k + (j - front.len())
        };
        if i < front.len() {
            assert(front[i] == s.take(k)[origin[i]]);
        }
        if j < front.len() {
            assert(front[j] == s.take(k)[origin[j]]);
            assert(origin[i] < origin[j]);
        }
        assert(all[i] == s[m]);
        assert(all[j] == s[n]);
        assert(m < n);
    }
}

/// Taking the entry with one key away changes nothing under another key.
pub proof fn lemma_without_keeps<T: Keyed>(s: Seq<T>, key: T::Key, other: T::Key)
    requires
        other != key,
    ensures
        entry(without(s, key), other) == entry(s, other),
    decreases s.len(),
{
    reveal(Seq::filter);
    if s.len() > 0 {
        lemma_without_keeps(s.drop_last(), key, other);
        let rest = without(s.drop_last(), key);
        if s.last().key() != key {
            assert(rest.push(s.last()).drop_last() =~= rest);
        }
    }
}

/// A table stays a table when an entry is put into it. The entry is then
/// the one found under its key, and under every other key the same entry is
/// found as before.
pub proof fn lemma_with<T: Keyed>(s: Seq<T>, item: T, other: T::Key)
    requires
        distinct_keys(s),
    ensures
        distinct_keys(with(s, item)),
        entry(with(s, item), item.key()) == Some(item),
        other != item.key() ==> entry(with(s, item), other) == entry(s, other),
        forall|i: int|
            0 <= i < with(s, item).len() - 1 ==> s.contains(#[trigger] with(s, item)[i]),
{
    let thinned = without(s, item.key());
    lemma_filter_distinct(s, key_is_not(item.key()));
    assert(thinned.push(item).drop_last() =~= thinned);
    if other != item.key() {
        lemma_without_keeps(s, item.key(), other);
    }
}

/// Puts `item` into the table, in place of any entry that had its key.
pub fn put<T: Keyed + Copy>(table: &mut Vec<T>, item: T)
    ensures
        final(table)@ == with(old(table)@, item),
{
    let key = item.own_key();
    let mut kept: Vec<T> = Vec::new();
    let mut i: usize = 0;
    assert(table@.take(0).filter(key_is_not(key)) =~= Seq::empty()) by {
        reveal(Seq::filter);
    }
    while i < table.len()
        invariant
            i <= table.len(),
            key == item.key(),
            kept@ == without(table@.take(i as int), key),
        decreases table.len() - i,
    {
        proof {
            lemma_filter_next(table@, key_is_not(key), i as int);
        }
        let other = table[i];
        if !other.has_key(&key) {
            kept.push(other);
        }
        i += 1;
    }
    assert(table@.take(i as int) =~= table@);
    kept.push(item);
    *table = kept;
}

/// Looks up the entry kept under `key`.
pub fn find<T: Keyed + Copy>(table: &Vec<T>, key: &T::Key) -> (found: Option<T>)
    ensures
        found == entry(table@, *key),
{
    let mut found: Option<T> = None;
    let mut i: usize = 0;
    while i < table.len()
        invariant
            i <= table.len(),
            found == entry(table@.take(i as int), *key),
        decreases table.len() - i,
    {
        assert(table@.take(i + 1).drop_last() =~= table@.take(i as int));
        let other = table[i];
        if other.has_key(key) {
            found = Some(other);
        }
        i += 1;
    }
    assert(table@.take(i as int) =~= table@);
    found
}

} // verus!
