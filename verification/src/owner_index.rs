//! The per-owner index: for each account, the ordered list of identifiers
//! it owns, at most [`crate::OWNER_CAPACITY`] of them and never a duplicate.
//! An account with no entry owns nothing; its list is empty.
//!
//! Append and removal check their preconditions before writing anything, so
//! the registry can compose them into a larger atomic operation: a failed
//! step has not touched the index.

use vstd::prelude::*;
use crate::store::KeyValueStore;
use crate::AccountId;
use crate::AssetId;
use crate::Error;
use crate::OWNER_CAPACITY;

verus! {

/// Maps each owner to the ordered list of identifiers it owns.
pub struct OwnerIndex {
    lists: KeyValueStore<AccountId, Vec<AssetId>>,
}

impl OwnerIndex {
    /// The list of identifiers an owner holds; empty if none was recorded.
    pub closed spec fn list(&self, owner: AccountId) -> Seq<AssetId> {
        if self.lists@.contains_key(owner) {
            self.lists@[owner]@
        } else {
            Seq::empty()
        }
    }

    /// No owner's list repeats an identifier or exceeds capacity.
    pub open spec fn wf(&self) -> bool {
        forall|o: AccountId|
            (#[trigger] self.list(o)).no_duplicates() && self.list(o).len() <= OWNER_CAPACITY
    }

    /// An empty index.
    pub fn new() -> (ix: Self)
        ensures
            ix.wf(),
            forall|o: AccountId| #[trigger] ix.list(o) == Seq::<AssetId>::empty(),
    {
        OwnerIndex { lists: KeyValueStore::new() }
    }

    /// How many identifiers an owner holds.
    pub fn count(&self, owner: AccountId) -> (n: usize)
        ensures
            n == self.list(owner).len(),
    {
        match self.lists.get(&owner) {
            Some(l) => l.len(),
            None => 0,
        }
    }

    /// A copy of an owner's list, in insertion order.
    pub fn ids_of(&self, owner: AccountId) -> (ids: Vec<AssetId>)
        ensures
            ids@ == self.list(owner),
    {
        let l = match self.lists.get(&owner) {
            Some(l) => l,
            None => {
                return Vec::new();
            },
        };
        let mut ids: Vec<AssetId> = Vec::new();
        let mut i: usize = 0;
        while i < l.len()
            invariant
                i <= l.len(),
                l@ == self.list(owner),
                ids@ == l@.subrange(0, i as int),
            decreases l.len() - i,
        {
            ids.push(l[i]);
            i = i + 1;
        }
        assert(ids@ =~= l@);
        ids
    }

    /// Appends an identifier to an owner's list, or fails with
    /// [`Error::TooManyOwned`] — and writes nothing — when the list is
    /// already at capacity.
    pub fn append(&mut self, owner: AccountId, id: AssetId) -> (r: Result<(), Error>)
        requires
            old(self).wf(),
            !old(self).list(owner).contains(id),
        ensures
            final(self).wf(),
            r == (if old(self).list(owner).len() >= OWNER_CAPACITY {
                Err::<(), Error>(Error::TooManyOwned)
            } else {
                Ok::<(), Error>(())
            }),
            r is Err ==> *final(self) == *old(self),
            r is Ok ==> final(self).list(owner) == old(self).list(owner).push(id),
            forall|o: AccountId| o != owner ==> final(self).list(o) == old(self).list(o),
    {
        let n = self.count(owner);
        if n >= OWNER_CAPACITY {
            return Err(Error::TooManyOwned);
        }
        let mut l = match self.lists.remove(&owner) {
            Some(l) => l,
            None => Vec::new(),
        };
        l.push(id);
        self.lists.set(owner, l);
        proof {
            let s = old(self).list(owner);
            assert(self.list(owner) == s.push(id));
            assert forall|o: AccountId|
                (#[trigger] self.list(o)).no_duplicates() && self.list(o).len()
                    <= OWNER_CAPACITY by {
                if o == owner {
                    assert(s.no_duplicates());
                    assert forall|i: int, j: int|
                        0 <= i < j < s.push(id).len() implies s.push(id)[i] != s.push(id)[j] by {
                        if j == s.len() {
                            assert(s.push(id)[i] == s[i]);
                            assert(s.contains(s[i]));
                        }
                    }
                } else {
                    assert(self.list(o) == old(self).list(o));
                }
            }
        }
        Ok(())
    }

    /// Removes one identifier from an owner's list, preserving the relative
    /// order of the remaining entries, or fails with [`Error::NoSuchAsset`]
    /// — and writes nothing — when the identifier is not in the list.
    pub fn remove(&mut self, owner: AccountId, id: AssetId) -> (r: Result<(), Error>)
        requires
            old(self).wf(),
        ensures
            final(self).wf(),
            r == (if old(self).list(owner).contains(id) {
                Ok::<(), Error>(())
            } else {
                Err::<(), Error>(Error::NoSuchAsset)
            }),
            r is Err ==> *final(self) == *old(self),
            r is Ok ==> final(self).list(owner) == old(self).list(owner).remove_value(id),
            r is Ok ==> !final(self).list(owner).contains(id),
            forall|o: AccountId| o != owner ==> final(self).list(o) == old(self).list(o),
    {
        let position = self.position_of(owner, id);
        proof {
            self.list(owner).index_of_first_ensures(id);
        }
        let at = match position {
            Some(at) => at,
            None => {
                return Err(Error::NoSuchAsset);
            },
        };
        let mut l = match self.lists.remove(&owner) {
            Some(l) => l,
            None => {
                return Err(Error::NoSuchAsset);
            },
        };
        l.remove(at);
        self.lists.set(owner, l);
        proof {
            let s = old(self).list(owner);
            s.index_of_first_ensures(id);
            assert(s.index_of_first(id) == Some(at as int));
            assert(self.list(owner) =~= s.remove(at as int));
            s.remove_ensures(at as int);
            assert forall|o: AccountId|
                (#[trigger] self.list(o)).no_duplicates() && self.list(o).len()
                    <= OWNER_CAPACITY by {
                if o == owner {
                    lemma_remove_keeps_no_duplicates(s, at as int);
                } else {
                    assert(self.list(o) == old(self).list(o));
                }
            }
            assert(!self.list(owner).contains(id)) by {
                if self.list(owner).contains(id) {
                    let k = choose|k: int|
                        0 <= k < self.list(owner).len() && self.list(owner)[k] == id;
                    if k < at {
                        assert(s[k] == id);
                    } else {
                        assert(s[k + 1] == id);
                    }
                }
            }
        }
        Ok(())
    }

    /// The position of the first occurrence of an identifier in an owner's
    /// list, if it occurs at all.
    fn position_of(&self, owner: AccountId, id: AssetId) -> (r: Option<usize>)
        ensures
            match r {
                Some(at) => self.list(owner).index_of_first(id) == Some(at as int),
                None => !self.list(owner).contains(id),
            },
    {
        proof {
            self.list(owner).index_of_first_ensures(id);
        }
        let l = match self.lists.get(&owner) {
            Some(l) => l,
            None => {
                return None;
            },
        };
        let ghost s = self.list(owner);
        let mut i: usize = 0;
        while i < l.len()
            invariant
                l@ == s,
                s == self.list(owner),
                i <= l.len(),
                forall|j: int| 0 <= j < i ==> s[j] != id,
                s.index_of_first(id) matches Some(k) ==> 0 <= k < s.len() && s[k] == id
                    && (forall|j: int| 0 <= j < k ==> s[j] != id),
                s.index_of_first(id) is None ==> !s.contains(id),
            decreases l.len() - i,
        {
            if l[i] == id {
                proof {
                    assert(s[i as int] == id);
                    assert(s.contains(id));
                    let k = s.index_of_first(id).unwrap();
                    assert(k == i as int);
                }
                return Some(i);
            }
            i = i + 1;
        }
        proof {
            if s.contains(id) {
                let k = choose|k: int| 0 <= k < s.len() && s[k] == id;
                assert(s[k] != id);
            }
        }
        None
    }
}

/// Removing one position from a duplicate-free sequence leaves it
/// duplicate-free.
proof fn lemma_remove_keeps_no_duplicates(s: Seq<AssetId>, at: int)
    requires
        s.no_duplicates(),
        0 <= at < s.len(),
    ensures
        s.remove(at).no_duplicates(),
{
    let t = s.remove(at);
    s.remove_ensures(at);
    assert forall|i: int, j: int| 0 <= i < j < t.len() implies t[i] != t[j] by {
        let si: int = if i < at {
            i
        } else {
            i + 1
        };
        let sj: int = if j < at {
            j
        } else {
            j + 1
        };
        assert(t[i] == s[si]);
        assert(t[j] == s[sj]);
    }
}

} // verus!
