//! Storage wrappers: the set of operation hashes an index keeps per key,
//! and the code-hash list stored per operation.
//!
//! Persistence backends themselves stay outside the core; these types are
//! the values they store, with set semantics proved here.

use crate::types::{CodeHash, UserOperationHash};
use vstd::prelude::*;

verus! {

/// A set of user-operation hashes, as a per-sender or per-entity index
/// stores it.
#[derive(Debug)]
pub struct WrapUserOpSet {
    pub hashes: Vec<UserOperationHash>,
}

impl WrapUserOpSet {
    /// No hash occurs twice.
    pub open spec fn wf(self) -> bool {
        forall|i: int, j: int| 0 <= i < j < self.hashes@.len() ==> self.hashes@[i] != self.hashes@[j]
    }

    pub open spec fn spec_contains(self, h: UserOperationHash) -> bool {
        self.hashes@.contains(h)
    }

    pub fn new() -> (r: WrapUserOpSet)
        ensures
            r.wf(),
            r.hashes@.len() == 0,
    {
        WrapUserOpSet { hashes: Vec::new() }
    }

    fn position(&self, value: &UserOperationHash) -> (r: Option<usize>)
        ensures
            match r {
                Some(i) => i < self.hashes@.len() && self.hashes@[i as int] == *value,
                None => !self.spec_contains(*value),
            },
    {
        let n: usize = self.hashes.len();
        let mut i: usize = 0;
        while i < n
            invariant
                i <= n,
                n == self.hashes@.len(),
                forall|j: int| 0 <= j < i ==> self.hashes@[j] != *value,
            decreases n - i,
        {
            if self.hashes[i] == *value {
                return Some(i);
            }
            i = i + 1;
        }
        proof {
            if self.hashes@.contains(*value) {
                let j = choose|j: int| 0 <= j < self.hashes@.len() && self.hashes@[j] == *value;
                assert(self.hashes@[j] == *value);
                assert(false);
            }
        }
        None
    }

    /// Adds a hash; reports whether it was new.
    pub fn insert(&mut self, value: UserOperationHash) -> (r: bool)
        requires
            old(self).wf(),
        ensures
            final(self).wf(),
            r == !old(self).spec_contains(value),
            final(self).spec_contains(value),
            forall|h: UserOperationHash|
                h != value ==> final(self).spec_contains(h) == old(self).spec_contains(h),
            r ==> final(self).hashes@ == old(self).hashes@.push(value),
            !r ==> final(self).hashes@ == old(self).hashes@,
    {
        match self.position(&value) {
            Some(_) => false,
            None => {
                self.hashes.push(value);
                proof {
                    assert(self.hashes@.last() == value);
                    assert(self.hashes@.contains(value));
                    assert forall|h: UserOperationHash|
                        h != value implies self.spec_contains(h) == old(
                        self,
                    ).spec_contains(h) by {
                        if old(self).spec_contains(h) {
                            let j = choose|j: int|
                                0 <= j < old(self).hashes@.len() && old(self).hashes@[j] == h;
                            assert(self.hashes@[j] == h);
                        }
                        if self.spec_contains(h) {
                            let j = choose|j: int|
                                0 <= j < self.hashes@.len() && self.hashes@[j] == h;
                            assert(j < old(self).hashes@.len());
                            assert(old(self).hashes@[j] == h);
                        }
                    }
                }
                true
            },
        }
    }

    /// Drops a hash; reports whether it was present.
    pub fn remove(&mut self, value: &UserOperationHash) -> (r: bool)
        requires
            old(self).wf(),
        ensures
            final(self).wf(),
            r == old(self).spec_contains(*value),
            !final(self).spec_contains(*value),
            forall|h: UserOperationHash|
                h != *value ==> final(self).spec_contains(h) == old(self).spec_contains(h),
    {
        match self.position(value) {
            Some(i) => {
                proof {
                    self.hashes@.remove_ensures(i as int);
                }
                self.hashes.remove(i);
                proof {
                    let oldv = old(self).hashes@;
                    let newv = self.hashes@;
                    assert forall|x: int, y: int| 0 <= x < y < newv.len() implies newv[x]
                        != newv[y] by {
                        let ox: int = if x < i { x } else { x + 1 };
                        let oy: int = if y < i { y } else { y + 1 };
                        assert(newv[x] == oldv[ox]);
                        assert(newv[y] == oldv[oy]);
                    }
                    if self.spec_contains(*value) {
                        let j = choose|j: int| 0 <= j < newv.len() && newv[j] == *value;
                        let oj: int = if j < i { j } else { j + 1 };
                        assert(newv[j] == oldv[oj]);
                        assert(oldv[oj] == oldv[i as int]);
                        assert(false);
                    }
                    assert forall|h: UserOperationHash|
                        h != *value implies self.spec_contains(h) == old(
                        self,
                    ).spec_contains(h) by {
                        if old(self).spec_contains(h) {
                            let j = choose|j: int| 0 <= j < oldv.len() && oldv[j] == h;
                            if j < i {
                                assert(newv[j] == h);
                            } else {
                                assert(j > i);
                                assert(newv[j - 1] == h);
                            }
                        }
                        if self.spec_contains(h) {
                            let j = choose|j: int| 0 <= j < newv.len() && newv[j] == h;
                            let oj: int = if j < i { j } else { j + 1 };
                            assert(oldv[oj] == h);
                        }
                    }
                }
                true
            },
            None => false,
        }
    }

    /// Whether the set holds nothing.
    pub fn is_empty(&self) -> (r: bool)
        ensures
            r == (self.hashes@.len() == 0),
    {
        self.hashes.len() == 0
    }

    /// The hashes as a list, in storage order.
    pub fn to_vec(&self) -> (r: Vec<UserOperationHash>)
        ensures
            r@ == self.hashes@,
    {
        let n: usize = self.hashes.len();
        let mut r: Vec<UserOperationHash> = Vec::new();
        let mut i: usize = 0;
        while i < n
            invariant
                i <= n,
                n == self.hashes@.len(),
                r@ == self.hashes@.subrange(0, i as int),
            decreases n - i,
        {
            r.push(self.hashes[i]);
            proof {
                assert(self.hashes@.subrange(0, i as int + 1) =~= self.hashes@.subrange(
                    0,
                    i as int,
                ).push(self.hashes@[i as int]));
            }
            i = i + 1;
        }
        proof {
            assert(self.hashes@.subrange(0, n as int) =~= self.hashes@);
        }
        r
    }
}

/// A list of code hashes, as stored beside an admitted operation.
#[derive(Debug)]
pub struct WrapCodeHashVec {
    pub hashes: Vec<CodeHash>,
}

impl WrapCodeHashVec {
    pub fn from_vec(hashes: Vec<CodeHash>) -> (r: WrapCodeHashVec)
        ensures
            r.hashes@ == hashes@,
    {
        WrapCodeHashVec { hashes }
    }

    pub fn into_vec(self) -> (r: Vec<CodeHash>)
        ensures
            r@ == self.hashes@,
    {
        self.hashes
    }

    pub fn len(&self) -> (r: usize)
        ensures
            r == self.hashes@.len(),
    {
        self.hashes.len()
    }
}

} // verus!
