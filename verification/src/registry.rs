//! The registry itself: mint, transfer and set-price over a store of
//! assets, a per-owner index and a global counter, each operation checking
//! every precondition before its first write, so that a failure leaves the
//! registry exactly as it was.

use vstd::prelude::*;
use crate::id_gen::Context;
use crate::id_gen::generate;
use crate::owner_index::OwnerIndex;
use crate::store::KeyValueStore;
use crate::AccountId;
use crate::AssetId;
use crate::Balance;
use crate::Error;
use crate::Event;
use crate::OWNER_CAPACITY;

verus! {

broadcast use vstd::seq_lib::lemma_seq_contains_after_push, vstd::set::axiom_set_insert_len;

/// A uniquely identified, owned record with an optional price.
#[derive(Clone, Copy, Debug, PartialEq, Eq)]
pub struct Asset {
    pub id: AssetId,
    pub owner: AccountId,
    pub price: Option<Balance>,
}

/// The registry's whole state: the global counter, the identifier-addressed
/// store of assets, the per-owner index, and the log of emitted events.
pub struct Registry {
    counter: u64,
    assets: KeyValueStore<AssetId, Asset>,
    owners: OwnerIndex,
    events: Vec<Event>,
}

impl Registry {
    /// The identifier-addressed map of live assets.
    pub closed spec fn assets_map(&self) -> Map<AssetId, Asset> {
        self.assets@
    }

    /// The identifiers an owner holds, in insertion order.
    pub closed spec fn owned(&self, owner: AccountId) -> Seq<AssetId> {
        self.owners.list(owner)
    }

    /// The current value of the global counter.
    pub closed spec fn spec_counter(&self) -> u64 {
        self.counter
    }

    /// The events emitted so far, in commit order.
    pub closed spec fn spec_events(&self) -> Seq<Event> {
        self.events@
    }

    /// Whether an identifier names a live asset.
    pub open spec fn is_live(&self, id: AssetId) -> bool {
        self.assets_map().contains_key(id)
    }

    /// The structural invariant every operation preserves: no owner's list
    /// repeats an identifier or exceeds capacity; every live asset records
    /// its own identifier and is listed under its owner; and every listed
    /// identifier is a live asset of exactly that owner.
    pub open spec fn inv(&self) -> bool {
        &&& forall|o: AccountId|
            (#[trigger] self.owned(o)).no_duplicates() && self.owned(o).len() <= OWNER_CAPACITY
        &&& forall|id: AssetId| #[trigger]
            self.is_live(id) ==> self.assets_map()[id].id == id && self.owned(
                self.assets_map()[id].owner,
            ).contains(id)
        &&& forall|o: AccountId, id: AssetId| #[trigger]
            self.owned(o).contains(id) ==> self.is_live(id) && self.assets_map()[id].owner == o
    }

    /// The global counter equals the number of live assets.
    pub open spec fn count_consistent(&self) -> bool {
        self.spec_counter() == self.assets_map().len()
    }

    /// Full well-formedness: the structural invariant plus count
    /// consistency.
    pub open spec fn wf(&self) -> bool {
        self.inv() && self.count_consistent()
    }

    /// The identifier a mint would generate in the current state.
    pub open spec fn next_id(&self, ctx: &Context) -> AssetId {
        ctx.spec_id(self.spec_counter())
    }

    /// Exactly how a mint of this identifier ends in the current state:
    /// a duplicate identifier, a counter at its limit, and a full owner
    /// index each fail, in that order of checks; anything else succeeds.
    pub open spec fn mint_outcome(&self, owner: AccountId, id: AssetId) -> Result<(), Error> {
        if self.is_live(id) {
            Err(Error::DuplicateAsset)
        } else if self.spec_counter() == u64::MAX {
            Err(Error::TooManyAssets)
        } else if self.owned(owner).len() >= OWNER_CAPACITY {
            Err(Error::TooManyOwned)
        } else {
            Ok(())
        }
    }

    /// Exactly how a transfer ends in the current state: an unknown
    /// identifier, a caller who is not the owner, a self-transfer, and a
    /// full receiving index each fail, in that order of checks; anything
    /// else succeeds.
    pub open spec fn transfer_outcome(
        &self,
        caller: AccountId,
        to: AccountId,
        id: AssetId,
    ) -> Result<(), Error> {
        if !self.is_live(id) {
            Err(Error::NoSuchAsset)
        } else if self.assets_map()[id].owner != caller {
            Err(Error::NotOwner)
        } else if caller == to {
            Err(Error::TransferToSelf)
        } else if self.owned(to).len() >= OWNER_CAPACITY {
            Err(Error::TooManyOwned)
        } else {
            Ok(())
        }
    }

    /// Exactly how a set-price ends in the current state: an unknown
    /// identifier and a caller who is not the owner fail, in that order of
    /// checks; anything else succeeds.
    pub open spec fn set_price_outcome(&self, caller: AccountId, id: AssetId) -> Result<
        (),
        Error,
    > {
        if !self.is_live(id) {
            Err(Error::NoSuchAsset)
        } else if self.assets_map()[id].owner != caller {
            Err(Error::NotOwner)
        } else {
            Ok(())
        }
    }

    /// An empty registry: no assets, no index entries, counter zero, no
    /// events.
    pub fn new() -> (reg: Registry)
        ensures
            reg.wf(),
            reg.spec_counter() == 0,
            reg.assets_map() == Map::<AssetId, Asset>::empty(),
            forall|o: AccountId| #[trigger] reg.owned(o) == Seq::<AssetId>::empty(),
            reg.spec_events() == Seq::<Event>::empty(),
    {
        let reg = Registry {
            counter: 0,
            assets: KeyValueStore::new(),
            owners: OwnerIndex::new(),
            events: Vec::new(),
        };
        proof {
            assert(reg.assets_map().dom() =~= Set::<AssetId>::empty());
            assert(reg.assets_map().len() == 0);
        }
        reg
    }

    /// Mints a new asset for `owner`, generating its identifier from the
    /// given context and the current counter, with no price set. Either
    /// every write commits, or the registry is left untouched and the exact
    /// error of [`Registry::mint_outcome`] is returned. The context must be
    /// one the generator accepts ([`Context::valid`]: its block hash fits
    /// the digest's input limit).
    pub fn mint(&mut self, owner: AccountId, ctx: &Context) -> (r: Result<(), Error>)
        requires
            old(self).inv(),
            ctx.valid(),
        ensures
            final(self).inv(),
            old(self).wf() ==> final(self).wf(),
            r == old(self).mint_outcome(owner, old(self).next_id(ctx)),
            r is Err ==> *final(self) == *old(self),
            r is Ok ==> {
                let id = old(self).next_id(ctx);
                &&& final(self).spec_counter() == old(self).spec_counter() + 1
                &&& final(self).assets_map() == old(self).assets_map().insert(
                    id,
                    (Asset { id, owner, price: None }),
                )
                &&& final(self).owned(owner) == old(self).owned(owner).push(id)
                &&& final(self).spec_events() == old(self).spec_events().push(
                    Event::Created { owner },
                )
            },
            forall|o: AccountId|
                o != owner ==> #[trigger] final(self).owned(o) == old(self).owned(o),
    {
        let id = generate(ctx, self.counter);
        self.mint_with_id(owner, id)
    }

    /// Mints a new asset for `owner` under a caller-chosen identifier.
    /// Either every write commits — the asset stored with no price, the
    /// identifier appended to the owner's index, the counter raised by one,
    /// a `Created` event logged — or the registry is left untouched and the
    /// exact error of [`Registry::mint_outcome`] is returned.
    pub fn mint_with_id(&mut self, owner: AccountId, id: AssetId) -> (r: Result<(), Error>)
        requires
            old(self).inv(),
        ensures
            final(self).inv(),
            old(self).wf() ==> final(self).wf(),
            r == old(self).mint_outcome(owner, id),
            r is Err ==> *final(self) == *old(self),
            r is Ok ==> {
                &&& final(self).spec_counter() == old(self).spec_counter() + 1
                &&& final(self).assets_map() == old(self).assets_map().insert(
                    id,
                    (Asset { id, owner, price: None }),
                )
                &&& final(self).owned(owner) == old(self).owned(owner).push(id)
                &&& final(self).spec_events() == old(self).spec_events().push(
                    Event::Created { owner },
                )
            },
            forall|o: AccountId|
                o != owner ==> #[trigger] final(self).owned(o) == old(self).owned(o),
    {
        if self.assets.contains(&id) {
            return Err(Error::DuplicateAsset);
        }
        if self.counter == u64::MAX {
            return Err(Error::TooManyAssets);
        }
        proof {
            lemma_owners_wf_from_inv(*self);
            assert(!self.owned(owner).contains(id)) by {
                if self.owned(owner).contains(id) {
                    assert(self.is_live(id));
                }
            }
        }
        match self.owners.append(owner, id) {
            Err(e) => {
                return Err(e);
            },
            Ok(()) => {},
        }
        self.assets.set(id, Asset { id, owner, price: None });
        self.counter = self.counter + 1;
        self.events.push(Event::Created { owner });
        proof {
            let pre = *old(self);
            let post = *self;
            assert forall|o: AccountId|
                (#[trigger] post.owned(o)).no_duplicates() && post.owned(o).len()
                    <= OWNER_CAPACITY by {
                assert(post.owners.list(o).no_duplicates() && post.owners.list(o).len()
                    <= OWNER_CAPACITY);
            }
            assert forall|id2: AssetId| #[trigger]
                post.is_live(id2) implies post.assets_map()[id2].id == id2 && post.owned(
                post.assets_map()[id2].owner,
            ).contains(id2) by {
                if id2 != id {
                    assert(pre.is_live(id2));
                    assert(pre.owned(pre.assets_map()[id2].owner).contains(id2));
                }
            }
            assert forall|o: AccountId, id2: AssetId| #[trigger]
                post.owned(o).contains(id2) implies post.is_live(id2)
                && post.assets_map()[id2].owner == o by {
                if o == owner {
                    if id2 != id {
                        assert(pre.owned(o).contains(id2));
                    }
                } else {
                    assert(pre.owned(o).contains(id2));
                }
            }
            if pre.count_consistent() {
                pre.assets.lemma_dom_finite();
                assert(post.assets_map().len() == pre.assets_map().len() + 1);
            }
        }
        Ok(())
    }

    /// Transfers a live asset from its owner `caller` to `to`: the record
    /// is re-owned, the identifier moves from `caller`'s index to `to`'s
    /// (appended at the end), and a `Transferred` event is logged. Either
    /// every write commits, or the registry is left untouched and the exact
    /// error of [`Registry::transfer_outcome`] is returned.
    pub fn transfer(&mut self, caller: AccountId, to: AccountId, id: AssetId) -> (r: Result<
        (),
        Error,
    >)
        requires
            old(self).inv(),
        ensures
            final(self).inv(),
            old(self).wf() ==> final(self).wf(),
            r == old(self).transfer_outcome(caller, to, id),
            r is Err ==> *final(self) == *old(self),
            final(self).spec_counter() == old(self).spec_counter(),
            r is Ok ==> {
                &&& final(self).assets_map() == old(self).assets_map().insert(
                    id,
                    (Asset { id, owner: to, price: old(self).assets_map()[id].price }),
                )
                &&& final(self).owned(caller) == old(self).owned(caller).remove_value(id)
                &&& final(self).owned(to) == old(self).owned(to).push(id)
                &&& final(self).spec_events() == old(self).spec_events().push(
                    Event::Transferred { from: caller, to, id },
                )
            },
            forall|o: AccountId|
                o != caller && o != to ==> #[trigger] final(self).owned(o) == old(self).owned(o),
    {
        let asset = match self.assets.get(&id) {
            Some(a) => *a,
            None => {
                return Err(Error::NoSuchAsset);
            },
        };
        if asset.owner != caller {
            return Err(Error::NotOwner);
        }
        if caller == to {
            return Err(Error::TransferToSelf);
        }
        let n = self.owners.count(to);
        if n >= OWNER_CAPACITY {
            return Err(Error::TooManyOwned);
        }
        proof {
            lemma_owners_wf_from_inv(*self);
            assert(self.owned(caller).contains(id));
            assert(!self.owned(to).contains(id)) by {
                if self.owned(to).contains(id) {
                    assert(self.assets_map()[id].owner == to);
                }
            }
        }
        let _removed = self.owners.remove(caller, id);
        let _appended = self.owners.append(to, id);
        self.assets.set(id, Asset { id, owner: to, price: asset.price });
        self.events.push(Event::Transferred { from: caller, to, id });
        proof {
            let pre = *old(self);
            let post = *self;
            let moved = pre.owned(caller);
            assert(post.owned(caller) == moved.remove_value(id));
            assert(post.owned(to) == pre.owned(to).push(id));
            assert forall|o: AccountId|
                (#[trigger] post.owned(o)).no_duplicates() && post.owned(o).len()
                    <= OWNER_CAPACITY by {
                assert(post.owners.list(o).no_duplicates() && post.owners.list(o).len()
                    <= OWNER_CAPACITY);
            }
            assert forall|id2: AssetId| #[trigger]
                post.is_live(id2) implies post.assets_map()[id2].id == id2 && post.owned(
                post.assets_map()[id2].owner,
            ).contains(id2) by {
                if id2 == id {
                    assert(post.owned(to).contains(id));
                } else {
                    assert(pre.is_live(id2));
                    let owner2 = pre.assets_map()[id2].owner;
                    assert(pre.owned(owner2).contains(id2));
                    if owner2 == caller {
                        lemma_remove_value_keeps_others(moved, id, id2);
                    }
                }
            }
            assert forall|o: AccountId, id2: AssetId| #[trigger]
                post.owned(o).contains(id2) implies post.is_live(id2)
                && post.assets_map()[id2].owner == o by {
                if o == caller {
                    lemma_remove_value_is_subset(moved, id, id2);
                    assert(pre.owned(caller).contains(id2));
                    assert(id2 != id);
                } else if o == to {
                    if id2 != id {
                        assert(pre.owned(to).contains(id2));
                    }
                } else {
                    assert(pre.owned(o).contains(id2));
                }
            }
            if pre.count_consistent() {
                pre.assets.lemma_dom_finite();
                assert(post.assets_map().len() == pre.assets_map().len());
            }
        }
        Ok(())
    }

    /// Sets or clears the price of a live asset owned by `caller`, logging
    /// a `PriceSet` event; nothing else changes. On failure the registry is
    /// left untouched and the exact error of
    /// [`Registry::set_price_outcome`] is returned.
    pub fn set_price(
        &mut self,
        caller: AccountId,
        id: AssetId,
        new_price: Option<Balance>,
    ) -> (r: Result<(), Error>)
        requires
            old(self).inv(),
        ensures
            final(self).inv(),
            old(self).wf() ==> final(self).wf(),
            r == old(self).set_price_outcome(caller, id),
            r is Err ==> *final(self) == *old(self),
            final(self).spec_counter() == old(self).spec_counter(),
            forall|o: AccountId| #[trigger] final(self).owned(o) == old(self).owned(o),
            r is Ok ==> {
                &&& final(self).assets_map() == old(self).assets_map().insert(
                    id,
                    (Asset { id, owner: caller, price: new_price }),
                )
                &&& final(self).spec_events() == old(self).spec_events().push(
                    Event::PriceSet { owner: caller, id, new_price },
                )
            },
    {
        let asset = match self.assets.get(&id) {
            Some(a) => *a,
            None => {
                return Err(Error::NoSuchAsset);
            },
        };
        if asset.owner != caller {
            return Err(Error::NotOwner);
        }
        self.assets.set(id, Asset { id, owner: caller, price: new_price });
        self.events.push(Event::PriceSet { owner: caller, id, new_price });
        proof {
            let pre = *old(self);
            let post = *self;
            assert forall|o: AccountId|
                (#[trigger] post.owned(o)).no_duplicates() && post.owned(o).len()
                    <= OWNER_CAPACITY by {
                assert(post.owned(o) == pre.owned(o));
                assert(pre.owned(o).no_duplicates() && pre.owned(o).len() <= OWNER_CAPACITY);
            }
            assert forall|id2: AssetId| #[trigger]
                post.is_live(id2) implies post.assets_map()[id2].id == id2 && post.owned(
                post.assets_map()[id2].owner,
            ).contains(id2) by {
                assert(pre.is_live(id2));
                assert(pre.owned(pre.assets_map()[id2].owner).contains(id2));
            }
            assert forall|o: AccountId, id2: AssetId| #[trigger]
                post.owned(o).contains(id2) implies post.is_live(id2)
                && post.assets_map()[id2].owner == o by {
                assert(pre.owned(o).contains(id2));
            }
            if pre.count_consistent() {
                pre.assets.lemma_dom_finite();
                assert(post.assets_map().len() == pre.assets_map().len());
            }
        }
        Ok(())
    }

    /// Overwrites the global counter without touching anything else. Count
    /// consistency becomes the caller's to re-establish; this is the seam a
    /// harness uses to drive the counter to its limit and exercise the
    /// overflow path of a mint.
    pub fn set_counter(&mut self, value: u64)
        ensures
            final(self).spec_counter() == value,
            old(self).inv() ==> final(self).inv(),
            final(self).assets_map() == old(self).assets_map(),
            forall|o: AccountId| #[trigger] final(self).owned(o) == old(self).owned(o),
            final(self).spec_events() == old(self).spec_events(),
    {
        self.counter = value;
        proof {
            if old(self).inv() {
                lemma_inv_untouched(*old(self), *self);
            }
        }
    }

    /// The current counter value.
    pub fn counter(&self) -> (n: u64)
        ensures
            n == self.spec_counter(),
    {
        self.counter
    }

    /// How many assets are live.
    pub fn asset_count(&self) -> (n: usize)
        ensures
            n == self.assets_map().len(),
    {
        self.assets.len()
    }

    /// Whether an identifier names a live asset.
    pub fn has_asset(&self, id: AssetId) -> (r: bool)
        ensures
            r == self.is_live(id),
    {
        self.assets.contains(&id)
    }

    /// The asset a live identifier names, if any.
    pub fn asset(&self, id: AssetId) -> (r: Option<Asset>)
        ensures
            r == (if self.is_live(id) {
                Some(self.assets_map()[id])
            } else {
                None::<Asset>
            }),
    {
        match self.assets.get(&id) {
            Some(a) => Some(*a),
            None => None,
        }
    }

    /// A snapshot of every live identifier, each exactly once, in no
    /// promised order; together with `asset`, this walks the whole store.
    pub fn asset_ids(&self) -> (ids: Vec<AssetId>)
        ensures
            ids@.no_duplicates(),
            ids@.len() == self.assets_map().len(),
            forall|id: AssetId| #[trigger] ids@.contains(id) <==> self.is_live(id),
    {
        self.assets.keys()
    }

    /// A copy of an owner's index list, in insertion order.
    pub fn owned_by(&self, owner: AccountId) -> (ids: Vec<AssetId>)
        ensures
            ids@ == self.owned(owner),
    {
        self.owners.ids_of(owner)
    }

    /// How many assets an owner holds.
    pub fn owned_count(&self, owner: AccountId) -> (n: usize)
        ensures
            n == self.owned(owner).len(),
    {
        self.owners.count(owner)
    }

    /// The events emitted so far, in commit order.
    pub fn events(&self) -> (ev: &Vec<Event>)
        ensures
            ev@ == self.spec_events(),
    {
        &self.events
    }
}

/// The registry's invariant subsumes the owner index's own
/// well-formedness.
proof fn lemma_owners_wf_from_inv(reg: Registry)
    requires
        reg.inv(),
    ensures
        reg.owners.wf(),
{
    assert forall|o: AccountId|
        (#[trigger] reg.owners.list(o)).no_duplicates() && reg.owners.list(o).len()
            <= OWNER_CAPACITY by {
        assert(reg.owned(o).no_duplicates() && reg.owned(o).len() <= OWNER_CAPACITY);
    }
}

/// The invariant does not involve the counter or the event log: a registry
/// whose assets and owner lists are those of an invariant-respecting one
/// respects it too.
proof fn lemma_inv_untouched(pre: Registry, post: Registry)
    requires
        pre.inv(),
        post.assets_map() == pre.assets_map(),
        forall|o: AccountId| #[trigger] post.owned(o) == pre.owned(o),
    ensures
        post.inv(),
{
    assert forall|o: AccountId|
        (#[trigger] post.owned(o)).no_duplicates() && post.owned(o).len() <= OWNER_CAPACITY by {
        assert(pre.owned(o).no_duplicates() && pre.owned(o).len() <= OWNER_CAPACITY);
    }
    assert forall|id: AssetId| #[trigger]
        post.is_live(id) implies post.assets_map()[id].id == id && post.owned(
        post.assets_map()[id].owner,
    ).contains(id) by {
        assert(pre.is_live(id));
        assert(pre.owned(pre.assets_map()[id].owner).contains(id));
    }
    assert forall|o: AccountId, id: AssetId| #[trigger]
        post.owned(o).contains(id) implies post.is_live(id) && post.assets_map()[id].owner
        == o by {
        assert(pre.owned(o).contains(id));
    }
}

/// Removing one value from a sequence keeps every other value.
proof fn lemma_remove_value_keeps_others(s: Seq<AssetId>, val: AssetId, x: AssetId)
    requires
        s.contains(x),
        x != val,
    ensures
        s.remove_value(val).contains(x),
{
    s.index_of_first_ensures(val);
    match s.index_of_first(val) {
        None => {},
        Some(at) => {
            s.remove_ensures(at);
            let j = choose|j: int| 0 <= j < s.len() && s[j] == x;
            if j < at {
                assert(s.remove(at)[j] == x);
            } else {
                assert(j != at);
                assert(s.remove(at)[j - 1] == x);
            }
        },
    }
}

/// Everything left after removing one value was in the sequence before.
proof fn lemma_remove_value_is_subset(s: Seq<AssetId>, val: AssetId, x: AssetId)
    requires
        s.remove_value(val).contains(x),
    ensures
        s.contains(x),
{
    s.index_of_first_ensures(val);
    match s.index_of_first(val) {
        None => {},
        Some(at) => {
            s.remove_ensures(at);
            let t = s.remove(at);
            let j = choose|j: int| 0 <= j < t.len() && t[j] == x;
            if j < at {
                assert(s[j] == x);
            } else {
                assert(s[j + 1] == x);
            }
        },
    }
}

/// Uniqueness: no two live assets share an identifier — two distinct live
/// keys always name records whose own identifiers differ as well.
pub proof fn lemma_asset_ids_unique(reg: Registry, a: AssetId, b: AssetId)
    requires
        reg.inv(),
        reg.is_live(a),
        reg.is_live(b),
        a != b,
    ensures
        reg.assets_map()[a].id != reg.assets_map()[b].id,
{
}

/// No owner's index ever exceeds its capacity.
pub proof fn lemma_capacity_bound(reg: Registry, owner: AccountId)
    requires
        reg.inv(),
    ensures
        reg.owned(owner).len() <= OWNER_CAPACITY,
{
}

/// An identifier is listed in at most one owner's index.
pub proof fn lemma_single_owner(reg: Registry, o1: AccountId, o2: AccountId, id: AssetId)
    requires
        reg.inv(),
        reg.owned(o1).contains(id),
        reg.owned(o2).contains(id),
    ensures
        o1 == o2,
{
}

/// A self-transfer never succeeds, whoever owns the asset; when the caller
/// does own it, the failure is `TransferToSelf` (an unknown identifier or
/// a foreign owner is reported first, as `NoSuchAsset` or `NotOwner`).
pub proof fn lemma_self_transfer_rejected(reg: Registry, caller: AccountId, id: AssetId)
    ensures
        reg.transfer_outcome(caller, caller, id) is Err,
        reg.is_live(id) && reg.assets_map()[id].owner == caller ==> reg.transfer_outcome(
            caller,
            caller,
            id,
        ) == Err::<(), Error>(Error::TransferToSelf),
{
}

} // verus!

