//! Sequences of records that carry unique integer keys: lookup, insert or
//! replace, and removal by key.

use vstd::prelude::*;
use crate::types::{Object, Score, Sector, Unit, ReinforcementPoints};

verus! {

/// A record identified by an integer key.
pub trait Keyed: Sized {
    spec fn spec_key(&self) -> i32;

    fn key(&self) -> (r: i32)
        ensures
            r == self.spec_key(),
    ;
}

impl Keyed for Unit {
    open spec fn spec_key(&self) -> i32 {
        self.id.id
    }

    fn key(&self) -> (r: i32) {
        self.id.id
    }
}

impl Keyed for Object {
    open spec fn spec_key(&self) -> i32 {
        self.id.id
    }

    fn key(&self) -> (r: i32) {
        self.id.id
    }
}

impl Keyed for Sector {
    open spec fn spec_key(&self) -> i32 {
        self.id.id
    }

    fn key(&self) -> (r: i32) {
        self.id.id
    }
}

impl Keyed for Score {
    open spec fn spec_key(&self) -> i32 {
        self.player_id.id
    }

    fn key(&self) -> (r: i32) {
        self.player_id.id
    }
}

impl Keyed for ReinforcementPoints {
    open spec fn spec_key(&self) -> i32 {
        self.player_id.id
    }

    fn key(&self) -> (r: i32) {
        self.player_id.id
    }
}

pub open spec fn keys_unique<T: Keyed>(s: Seq<T>) -> bool {
    forall|i: int, j: int|
        0 <= i < s.len() && 0 <= j < s.len() && #[trigger] s[i].spec_key() == #[trigger] s[j].spec_key()
            ==> i == j
}

pub open spec fn has_key<T: Keyed>(s: Seq<T>, k: i32) -> bool {
    exists|i: int| 0 <= i < s.len() && #[trigger] s[i].spec_key() == k
}

pub open spec fn key_index<T: Keyed>(s: Seq<T>, k: i32) -> int {
    choose|i: int| 0 <= i < s.len() && #[trigger] s[i].spec_key() == k
}

/// The record with key `k`, if there is one.
pub open spec fn find_key<T: Keyed>(s: Seq<T>, k: i32) -> Option<T> {
    if has_key(s, k) {
        Some(s[key_index(s, k)])
    } else {
        None
    }
}

/// `s` with `x` in place of the record with its key, or with `x` at the end.
pub open spec fn put_key<T: Keyed>(s: Seq<T>, x: T) -> Seq<T> {
    if has_key(s, x.spec_key()) {
        s.update(key_index(s, x.spec_key()), x)
    } else {
        s.push(x)
    }
}

/// `s` without the record with key `k`.
pub open spec fn drop_key<T: Keyed>(s: Seq<T>, k: i32) -> Seq<T> {
    if has_key(s, k) {
        s.remove(key_index(s, k))
    } else {
        s
    }
}

pub proof fn lemma_key_index<T: Keyed>(s: Seq<T>, i: int)
    requires
        keys_unique(s),
        0 <= i < s.len(),
    ensures
        has_key(s, s[i].spec_key()),
        key_index(s, s[i].spec_key()) == i,
        find_key(s, s[i].spec_key()) == Some(s[i]),
{
    let k = s[i].spec_key();
    assert(has_key(s, k));
    let j = key_index(s, k);
    assert(s[j].spec_key() == s[i].spec_key());
}

pub proof fn lemma_put_key_unique<T: Keyed>(s: Seq<T>, x: T)
    requires
        keys_unique(s),
    ensures
        keys_unique(put_key(s, x)),
        has_key(put_key(s, x), x.spec_key()),
        forall|k: i32| k != x.spec_key() ==> #[trigger] find_key(put_key(s, x), k) == find_key(s, k),
{
    let r = put_key(s, x);
    if has_key(s, x.spec_key()) {
        let m = key_index(s, x.spec_key());
        assert(r[m] == x);
        assert forall|k: i32| k != x.spec_key() implies #[trigger] find_key(r, k) == find_key(s, k) by {
            if has_key(s, k) {
                let a = key_index(s, k);
                assert(r[a].spec_key() == k);
                lemma_key_index(r, a);
            }
            if has_key(r, k) {
                let b = key_index(r, k);
                assert(s[b].spec_key() == k);
            }
        }
    } else {
        let m = s.len() as int;
        assert(r[m] == x);
        assert forall|i: int, j: int|
            0 <= i < r.len() && 0 <= j < r.len() && #[trigger] r[i].spec_key() == #[trigger] r[j].spec_key()
            implies i == j by {
            if i < m && j == m {
                assert(has_key(s, x.spec_key()));
            }
            if j < m && i == m {
                assert(has_key(s, x.spec_key()));
            }
        }
        assert forall|k: i32| k != x.spec_key() implies #[trigger] find_key(r, k) == find_key(s, k) by {
            if has_key(s, k) {
                let a = key_index(s, k);
                assert(r[a].spec_key() == k);
                lemma_key_index(r, a);
            }
            if has_key(r, k) {
                let b = key_index(r, k);
                assert(b != m);
                assert(s[b].spec_key() == k);
            }
        }
    }
}

pub proof fn lemma_drop_key_unique<T: Keyed>(s: Seq<T>, k: i32)
    requires
        keys_unique(s),
    ensures
        keys_unique(drop_key(s, k)),
        !has_key(drop_key(s, k), k),
{
    if has_key(s, k) {
        let m = key_index(s, k);
        let r = s.remove(m);
        assert forall|i: int, j: int|
            0 <= i < r.len() && 0 <= j < r.len() && #[trigger] r[i].spec_key() == #[trigger] r[j].spec_key()
            implies i == j by {
            let si = if i < m { i } else { i + 1 };
            let sj = if j < m { j } else { j + 1 };
            assert(s[si].spec_key() == s[sj].spec_key());
        }
        if has_key(r, k) {
            let b = key_index(r, k);
            let sb = if b < m { b } else { b + 1 };
            assert(s[sb].spec_key() == k);
        }
    }
}

/// Where the record with key `k` stands in `v`.
pub fn position<T: Keyed>(v: &Vec<T>, k: i32) -> (r: Option<usize>)
    requires
        keys_unique(v@),
    ensures
        r.is_none() <==> !has_key(v@, k),
        r matches Some(i) ==> i < v@.len() && v@[i as int].spec_key() == k && key_index(v@, k) == i,
{
    let mut i: usize = 0;
    while i < v.len()
        invariant
            keys_unique(v@),
            i <= v@.len(),
            forall|j: int| 0 <= j < i ==> #[trigger] v@[j].spec_key() != k,
        decreases v@.len() - i,
    {
        if v[i].key() == k {
            proof {
                lemma_key_index(v@, i as int);
            }
            return Some(i);
        }
        i += 1;
    }
    None
}

/// Copy of the record with key `k`, if there is one.
pub fn find<T: Keyed + Copy>(v: &Vec<T>, k: i32) -> (r: Option<T>)
    requires
        keys_unique(v@),
    ensures
        r == find_key(v@, k),
{
    match position(v, k) {
        Some(i) => Some(v[i]),
        None => None,
    }
}

/// Puts `x` in place of the record with its key, or at the end.
pub fn put<T: Keyed>(v: &mut Vec<T>, x: T)
    requires
        keys_unique(old(v)@),
    ensures
        final(v)@ == put_key(old(v)@, x),
        keys_unique(final(v)@),
{
    proof {
        lemma_put_key_unique(v@, x);
    }
    let k = x.key();
    match position(v, k) {
        Some(i) => {
            v.set(i, x);
        },
        None => {
            v.push(x);
        },
    }
}

/// Removes the record with key `k`, if there is one.
pub fn take_out<T: Keyed>(v: &mut Vec<T>, k: i32)
    requires
        keys_unique(old(v)@),
    ensures
        final(v)@ == drop_key(old(v)@, k),
        keys_unique(final(v)@),
{
    proof {
        lemma_drop_key_unique(v@, k);
    }
    match position(v, k) {
        Some(i) => {
            v.remove(i);
        },
        None => {},
    }
}

/// Filtering one element more: it is kept exactly when it passes `pred`.
pub proof fn lemma_filter_prefix<T>(s: Seq<T>, i: int, pred: spec_fn(T) -> bool)
    requires
        0 <= i < s.len(),
    ensures
        s.subrange(0, i + 1).filter(pred) == if pred(s[i]) {
            s.subrange(0, i).filter(pred).push(s[i])
        } else {
            s.subrange(0, i).filter(pred)
        },
{
    let s1 = s.subrange(0, i + 1);
    assert(s1.drop_last() =~= s.subrange(0, i));
    reveal(Seq::filter);
}

} // verus!
