//! An append-only map over a contiguous range of integer keys.
//!
//! Keys must arrive strictly increasing by one; this lets consumers reason
//! about "the range `[lower, upper]` is fully observed" without any extra
//! bookkeeping.

use vstd::prelude::*;

verus! {

/// The error returned when an append does not continue the key range.
#[derive(Debug, PartialEq, Eq, Structural)]
pub struct SequentialAppendError {
    /// The current upper bound of the cache.
    pub upper: u64,
    /// The key whose insertion was refused.
    pub attempted: u64,
}

/// An ordered map from a contiguous range of `u64` keys to values of type
/// `V`.  The key range only ever grows by one at the top (`append`) and
/// shrinks from the bottom (`remove_key_below`).
pub struct SequentialKeyCache<V> {
    /// Key of `data[0]`; meaningful only when `data` is non-empty.
    lower: u64,
    /// The values, in key order.
    data: Vec<V>,
}

impl<V> SequentialKeyCache<V> {
    /// The key of the first entry, as a mathematical integer.
    pub closed spec fn lower_key(&self) -> int {
        self.lower as int
    }

    /// The stored values, in key order; entry `i` belongs to key
    /// `lower_key() + i`.
    pub closed spec fn entries(&self) -> Seq<V> {
        self.data@
    }

    /// The whole key range must fit in `u64`.
    pub open spec fn wf(&self) -> bool {
        0 <= self.lower_key() && self.lower_key() + self.entries().len() <= u64::MAX + 1
    }

    pub open spec fn spec_len(&self) -> nat {
        self.entries().len()
    }

    pub open spec fn spec_is_empty(&self) -> bool {
        self.spec_len() == 0
    }

    /// The key just past the top of the range.
    pub open spec fn next_key(&self) -> int {
        if self.spec_is_empty() {
            self.lower_key()
        } else {
            self.lower_key() + self.spec_len()
        }
    }

    /// The greatest key present, as a mathematical integer.
    pub open spec fn upper_key(&self) -> int {
        self.lower_key() + self.spec_len() - 1
    }

    pub open spec fn spec_has_key(&self, key: int) -> bool {
        !self.spec_is_empty() && self.lower_key() <= key <= self.upper_key()
    }

    /// The value stored at `key`; meaningful only when `spec_has_key(key)`.
    pub open spec fn spec_value(&self, key: int) -> V {
        self.entries()[key - self.lower_key()]
    }

    /// An empty cache whose keys will advance by one on each append.
    pub fn sequential() -> (r: Self)
        ensures
            r.wf(),
            r.spec_is_empty(),
    {
        SequentialKeyCache { lower: 0, data: Vec::new() }
    }

    /// The number of entries.
    pub fn size(&self) -> (r: usize)
        ensures
            r == self.spec_len(),
    {
        self.data.len()
    }

    /// The least key present, if any.
    pub fn lower_bound(&self) -> (r: Option<u64>)
        ensures
            match r {
                Option::Some(k) => !self.spec_is_empty() && k == self.lower_key(),
                Option::None => self.spec_is_empty(),
            },
    {
        if self.data.len() == 0 {
            None
        } else {
            Some(self.lower)
        }
    }

    /// The greatest key present, if any.
    pub fn upper_bound(&self) -> (r: Option<u64>)
        requires
            self.wf(),
        ensures
            match r {
                Option::Some(k) => !self.spec_is_empty() && k == self.upper_key(),
                Option::None => self.spec_is_empty(),
            },
    {
        if self.data.len() == 0 {
            None
        } else {
            Some(self.lower + (self.data.len() - 1) as u64)
        }
    }

    /// The value stored at `key`, if the key is in the range.
    pub fn get_value(&self, key: u64) -> (r: Option<&V>)
        requires
            self.wf(),
        ensures
            match r {
                Option::Some(v) => self.spec_has_key(key as int) && *v == self.spec_value(
                    key as int,
                ),
                Option::None => !self.spec_has_key(key as int),
            },
    {
        if self.data.len() == 0 {
            return None;
        }
        if key < self.lower {
            return None;
        }
        let offset = key - self.lower;
        if offset < self.data.len() as u64 {
            Some(&self.data[offset as usize])
        } else {
            None
        }
    }

    /// Appends `value` under `key`.  An empty cache accepts any key; a
    /// non-empty cache accepts exactly the key one past its upper bound.
    pub fn append(&mut self, key: u64, value: V) -> (r: Result<(), SequentialAppendError>)
        requires
            old(self).wf(),
        ensures
            final(self).wf(),
            ({
                if old(self).spec_is_empty() || key == old(self).next_key() {
                    &&& r is Ok
                    &&& !final(self).spec_is_empty()
                    &&& final(self).entries() == old(self).entries().push(value)
                    &&& final(self).lower_key() == if old(self).spec_is_empty() {
                        key as int
                    } else {
                        old(self).lower_key()
                    }
                    &&& final(self).upper_key() == key
                } else {
                    &&& r matches Err(e) && e.upper == old(self).upper_key() && e.attempted == key
                    &&& *final(self) == *old(self)
                }
            }),
    {
        if self.data.len() == 0 {
            self.lower = key;
            self.data.push(value);
            return Ok(());
        }
        let upper = self.lower + (self.data.len() - 1) as u64;
        if upper < u64::MAX && key == upper + 1 {
            self.data.push(value);
            Ok(())
        } else {
            Err(SequentialAppendError { upper, attempted: key })
        }
    }

    /// Removes every entry whose key is strictly below `key`; entries at
    /// `key` and above stay.
    pub fn remove_key_below(&mut self, key: u64)
        requires
            old(self).wf(),
        ensures
            final(self).wf(),
            final(self).entries() == old(self).entries().skip(removed_below(*old(self), key as int)),
            !final(self).spec_is_empty() ==> final(self).lower_key() == old(self).lower_key()
                + removed_below(*old(self), key as int),
            forall|k: int|
                final(self).spec_has_key(k) <==> (old(self).spec_has_key(k) && k >= key),
            forall|k: int|
                final(self).spec_has_key(k) ==> final(self).spec_value(k) == old(
                    self,
                ).spec_value(k),
    {
        let ghost orig = *self;
        let ghost mut removed: int = 0;
        while self.data.len() > 0 && self.lower < key
            invariant
                self.wf(),
                orig.wf(),
                0 <= removed <= orig.spec_len(),
                self.entries() == orig.entries().skip(removed),
                self.spec_len() + removed == orig.spec_len(),
                self.spec_len() > 0 ==> self.lower_key() == orig.lower_key() + removed,
                removed > 0 ==> orig.lower_key() + removed <= key,
            decreases self.data.len(),
        {
            self.data.remove(0);
            // once the cache is empty the lower bound carries no meaning, so
            // a wrap on the last step is harmless
            self.lower = self.lower.wrapping_add(1);
            proof {
                removed = removed + 1;
                assert(self.entries() =~= orig.entries().skip(removed));
            }
        }
        proof {
            if self.spec_len() == 0 {
                if orig.spec_len() == 0 {
                    assert(removed_below(orig, key as int) == 0);
                } else {
                    assert(removed == orig.spec_len());
                    assert(orig.lower_key() + removed <= key);
                    assert(key as int > orig.upper_key());
                }
            } else {
                if removed == 0 {
                    assert(self.lower_key() >= key);
                    assert(removed_below(orig, key as int) == 0);
                } else {
                    assert(self.lower_key() >= key);
                    assert(orig.lower_key() + removed == key);
                    assert(key as int <= orig.upper_key());
                    assert(removed_below(orig, key as int) == removed);
                }
            }
            assert(self.entries() =~= orig.entries().skip(removed_below(orig, key as int)));
            assert forall|k: int| self.spec_has_key(k) implies (orig.spec_has_key(k) && k
                >= key) by {}
            assert forall|k: int| orig.spec_has_key(k) && k >= key implies self.spec_has_key(
                k,
            ) by {}
            assert forall|k: int| self.spec_has_key(k) implies self.spec_value(k)
                == orig.spec_value(k) by {
                assert(self.entries()[k - self.lower_key()] == orig.entries().skip(removed)[k
                    - self.lower_key()]);
            }
        }
    }

    /// Removes every entry.
    pub fn clear(&mut self)
        ensures
            final(self).wf(),
            final(self).spec_is_empty(),
    {
        self.data.clear();
    }
}

/// How many entries of `c` lie strictly below `key`.
pub open spec fn removed_below<V>(c: SequentialKeyCache<V>, key: int) -> int {
    if c.spec_is_empty() || key <= c.lower_key() {
        0
    } else if key > c.upper_key() {
        c.spec_len() as int
    } else {
        key - c.lower_key()
    }
}

} // verus!
